use std::array;
use std::collections::BTreeSet;

use ezjww::dxf::{convert_arc, convert_entity, convert_layers, layer_name, map_color, map_line_type};
use ezjww::explode::{
    arc_segments, circle_image, ellipse_segments, CircleImage, transform_arc_for_explode, transform_circle_for_explode,
    transform_ellipse_for_explode, transform_entity_for_explode,
};
use ezjww::{
    convert_document, convert_document_with_options, document_records, document_to_string,
    Arc, Arithmetic, Binary64, Block, BlockDef, ConvertOptions, Dimension, DxfArc, DxfBlock, DxfCircle,
    DxfDocument, DxfEllipse, DxfEntity, DxfInsert, DxfLayer, DxfLine, DxfText, Entity, EntityBase,
    JwwDocument, JwwHeader, LayerGroupHeader, LayerHeader, Line, Point, Record, Solid, Text,
    Transform2D, Value,
};

struct Fpu;

fn b(v: f64) -> Binary64 {
    Binary64::from_bits(v.to_bits())
}

fn f(v: Binary64) -> f64 {
    f64::from_bits(v.to_bits())
}

impl Arithmetic for Fpu {
    fn add(&self, a: Binary64, c: Binary64) -> Binary64 {
        b(f(a) + f(c))
    }

    fn sub(&self, a: Binary64, c: Binary64) -> Binary64 {
        b(f(a) - f(c))
    }

    fn mul(&self, a: Binary64, c: Binary64) -> Binary64 {
        b(f(a) * f(c))
    }

    fn div(&self, a: Binary64, c: Binary64) -> Binary64 {
        b(f(a) / f(c))
    }

    fn sqrt(&self, a: Binary64) -> Binary64 {
        b(f(a).sqrt())
    }

    fn sin(&self, a: Binary64) -> Binary64 {
        b(f(a).sin())
    }

    fn cos(&self, a: Binary64) -> Binary64 {
        b(f(a).cos())
    }

    fn atan2(&self, y: Binary64, x: Binary64) -> Binary64 {
        b(f(y).atan2(f(x)))
    }

    fn ceil_to_count(&self, a: Binary64) -> usize {
        f(a).ceil() as usize
    }

    fn from_count(&self, n: usize) -> Binary64 {
        b(n as f64)
    }

    fn format_fixed(&self, a: Binary64) -> String {
        format!("{:.12}", f(a))
    }
}

fn empty_header() -> JwwHeader {
    JwwHeader {
        version: 600,
        memo: String::new(),
        paper_size: 0,
        write_layer_group: 0,
        layer_groups: array::from_fn(|g| LayerGroupHeader {
            state: 0,
            write_layer: 0,
            scale: b(1.0),
            protect: 0,
            name: format!("Group{g:X}"),
            layers: array::from_fn(|l| LayerHeader {
                state: 0,
                protect: 0,
                name: format!("{g:X}-{l:X}"),
            }),
        }),
    }
}

fn line(base: EntityBase, x1: f64, y1: f64, x2: f64, y2: f64) -> Line {
    Line { base, start_x: b(x1), start_y: b(y1), end_x: b(x2), end_y: b(y2) }
}

fn text(base: EntityBase, x: f64, y: f64, size_y: f64, content: &str) -> Text {
    Text {
        base,
        start_x: b(x),
        start_y: b(y),
        end_x: b(x),
        end_y: b(y),
        text_type: 0,
        size_x: b(1.0),
        size_y: b(size_y),
        spacing: b(0.0),
        angle: b(0.0),
        font_name: String::new(),
        content: content.to_string(),
    }
}

fn block(base: EntityBase, x: f64, y: f64, scale: f64, def_number: u32) -> Block {
    Block {
        base,
        ref_x: b(x),
        ref_y: b(y),
        scale_x: b(scale),
        scale_y: b(scale),
        rotation: b(0.0),
        def_number,
    }
}

fn block_def(number: u32, name: &str, entities: Vec<Entity>) -> BlockDef {
    BlockDef {
        base: EntityBase::default(),
        number,
        is_referenced: true,
        name: name.to_string(),
        entities,
    }
}

fn exploding(max_block_nesting: usize) -> ConvertOptions {
    ConvertOptions { explode_inserts: true, max_block_nesting }
}

#[test]
fn convert_document_handles_line_and_dimension() {
    let base = EntityBase::default();
    let line_entity = Entity::Line(line(base, 0.0, 0.0, 10.0, 0.0));
    let dim = Entity::Dimension(Dimension {
        base,
        line: line(base, 0.0, 1.0, 10.0, 1.0),
        text: text(base, 5.0, 2.0, 1.0, "1000"),
        sxf_mode: Some(0),
        aux_lines: vec![],
        aux_points: vec![],
    });

    let doc = JwwDocument {
        header: empty_header(),
        entities: vec![line_entity, dim],
        block_defs: vec![],
    };

    let dxf = convert_document(&doc, &Fpu);
    let types = dxf.entities.iter().map(DxfEntity::entity_type).collect::<Vec<_>>();
    assert_eq!(types, vec!["LINE", "LINE", "TEXT"]);
}

#[test]
fn convert_document_resolves_insert_block_name() {
    let base = EntityBase::default();
    let entity = Entity::Block(Block {
        base,
        ref_x: b(1.0),
        ref_y: b(2.0),
        scale_x: b(1.0),
        scale_y: b(1.0),
        rotation: b(0.0),
        def_number: 5,
    });

    let block_def = BlockDef {
        base,
        number: 5,
        is_referenced: true,
        name: "Door".to_string(),
        entities: vec![],
    };

    let doc = JwwDocument {
        header: empty_header(),
        entities: vec![entity],
        block_defs: vec![block_def],
    };

    let dxf = convert_document(&doc, &Fpu);
    match &dxf.entities[0] {
        DxfEntity::Insert(v) => assert_eq!(v.block_name, "Door"),
        other => panic!("expected INSERT, got {:?}", other),
    }
}

#[test]
fn convert_document_explode_inserts_expands_nested_blocks() {
    let base = EntityBase::default();
    let top_insert = Entity::Block(block(base, 10.0, 20.0, 2.0, 1));

    let block_2 = block_def(2, "B2", vec![Entity::Line(line(base, 0.0, 0.0, 0.0, 1.0))]);

    let block_1 = block_def(
        1,
        "B1",
        vec![
            Entity::Line(line(base, 0.0, 0.0, 1.0, 0.0)),
            Entity::Block(block(base, 0.0, 2.0, 1.0, 2)),
        ],
    );

    let doc = JwwDocument {
        header: empty_header(),
        entities: vec![top_insert],
        block_defs: vec![block_1, block_2],
    };

    let dxf = convert_document_with_options(
        &doc,
        ConvertOptions { explode_inserts: true, max_block_nesting: 32 },
        &Fpu,
    );

    assert!(dxf.blocks.is_empty());
    assert!(!dxf.entities.is_empty());
    assert!(!dxf.entities.iter().any(|e| matches!(e, DxfEntity::Insert(_))));

    assert!(contains_line(&dxf.entities, 10.0, 20.0, 12.0, 20.0));
    assert!(contains_line(&dxf.entities, 10.0, 24.0, 10.0, 26.0));
}

#[test]
fn convert_document_explode_inserts_detects_cycle() {
    let base = EntityBase::default();
    let top_insert = Entity::Block(block(base, 0.0, 0.0, 1.0, 1));
    let block_1 = block_def(1, "B1", vec![Entity::Block(block(base, 0.0, 0.0, 1.0, 2))]);
    let block_2 = block_def(2, "B2", vec![Entity::Block(block(base, 0.0, 0.0, 1.0, 1))]);

    let doc = JwwDocument {
        header: empty_header(),
        entities: vec![top_insert],
        block_defs: vec![block_1, block_2],
    };

    let dxf = convert_document_with_options(
        &doc,
        ConvertOptions { explode_inserts: true, max_block_nesting: 32 },
        &Fpu,
    );

    assert!(dxf.unsupported_entities.iter().any(|v| v.starts_with("BLOCK_CYCLE(")));
    assert_eq!(dxf.unsupported_entities, vec!["BLOCK_CYCLE(1)"]);
    assert!(dxf.entities.is_empty());
}

#[test]
fn convert_document_explode_inserts_reports_unresolved_block() {
    let base = EntityBase::default();
    let top_insert = Entity::Block(block(base, 0.0, 0.0, 1.0, 999));

    let doc = JwwDocument {
        header: empty_header(),
        entities: vec![top_insert],
        block_defs: vec![],
    };

    let dxf = convert_document_with_options(
        &doc,
        ConvertOptions { explode_inserts: true, max_block_nesting: 32 },
        &Fpu,
    );

    assert!(dxf.entities.is_empty());
    assert!(dxf.blocks.is_empty());
    assert!(dxf.unsupported_entities.iter().any(|v| v == "UNRESOLVED_BLOCK(999)"));
}

#[test]
fn convert_document_explode_inserts_enforces_depth_limit() {
    let base = EntityBase::default();
    let top_insert = Entity::Block(block(base, 0.0, 0.0, 1.0, 1));
    let block_2 = block_def(2, "B2", vec![Entity::Line(line(base, 0.0, 0.0, 1.0, 0.0))]);
    let block_1 = block_def(1, "B1", vec![Entity::Block(block(base, 5.0, 0.0, 1.0, 2))]);

    let doc = JwwDocument {
        header: empty_header(),
        entities: vec![top_insert],
        block_defs: vec![block_1, block_2],
    };

    let dxf = convert_document_with_options(
        &doc,
        ConvertOptions { explode_inserts: true, max_block_nesting: 1 },
        &Fpu,
    );

    assert!(dxf.entities.is_empty());
    assert!(dxf.unsupported_entities.iter().any(|v| v == "BLOCK_DEPTH_LIMIT(2)"));
}

#[test]
fn document_to_string_emits_minimum_dxf_sections() {
    let base = EntityBase::default();
    let doc = JwwDocument {
        header: empty_header(),
        entities: vec![Entity::Line(line(base, 0.0, 0.0, 10.0, 0.0))],
        block_defs: vec![],
    };

    let dxf = convert_document(&doc, &Fpu);
    let out = document_to_string(&dxf, &Fpu);

    assert!(out.contains("  0\nSECTION\n  2\nHEADER\n"));
    assert!(out.contains("  2\nTABLES\n"));
    assert!(out.contains("  2\nBLOCKS\n"));
    assert!(out.contains("  2\nENTITIES\n"));
    assert!(out.contains("  0\nLINE\n"));
    assert!(out.ends_with("  0\nEOF\n"));
}

#[test]
fn document_to_string_escapes_unicode_fields() {
    let dxf = DxfDocument {
        layers: vec![DxfLayer {
            name: "\u{65E5}\u{672C}\u{8A9E}".to_string(),
            color: 7,
            line_type: "CONTINUOUS".to_string(),
            frozen: false,
            locked: false,
        }],
        entities: vec![DxfEntity::Text(DxfText {
            layer: "\u{65E5}\u{672C}\u{8A9E}".to_string(),
            color: 7,
            line_type: "CONTINUOUS".to_string(),
            x: b(0.0),
            y: b(0.0),
            height: b(2.5),
            rotation: b(0.0),
            content: "\u{56F3}\u{9762}".to_string(),
            style: "STANDARD".to_string(),
        })],
        blocks: vec![],
        unsupported_entities: vec![],
    };

    let out = document_to_string(&dxf, &Fpu);
    assert!(out.contains("\\U+56F3\\U+9762"));
    assert!(out.contains("\\U+65E5\\U+672C\\U+8A9E"));
}

#[test]
fn document_to_string_has_objects_section_and_unique_handles() {
    let base = EntityBase::default();
    let doc = JwwDocument {
        header: empty_header(),
        entities: vec![
            Entity::Line(line(base, 0.0, 0.0, 10.0, 0.0)),
            Entity::Text(text(base, 5.0, 2.0, 1.0, "abc")),
        ],
        block_defs: vec![],
    };

    let dxf = convert_document(&doc, &Fpu);
    let out = document_to_string(&dxf, &Fpu);

    assert!(out.contains("  2\nOBJECTS\n"));
    assert!(out.contains("  2\nBLOCK_RECORD\n"));
    assert!(out.contains("  2\n*Model_Space\n"));
    assert!(out.contains("  2\n*Paper_Space\n"));

    let handles = group_values_by_code(&out, 5);
    assert!(!handles.is_empty());
    let unique = handles.iter().collect::<BTreeSet<_>>();
    assert_eq!(unique.len(), handles.len());
    assert!(handles.iter().all(|h| !h.is_empty() && h.chars().all(|c| c.is_ascii_hexdigit())));
}

fn group_values_by_code(dxf: &str, target_code: i32) -> Vec<String> {
    let mut out = Vec::<String>::new();
    let mut lines = dxf.lines();
    while let Some(code_line) = lines.next() {
        let Some(value_line) = lines.next() else {
            break;
        };
        if code_line.trim().parse::<i32>().ok() == Some(target_code) {
            out.push(value_line.to_string());
        }
    }
    out
}

fn contains_line(entities: &[DxfEntity], x1: f64, y1: f64, x2: f64, y2: f64) -> bool {
    entities.iter().any(|entity| {
        if let DxfEntity::Line(line) = entity {
            nearly_eq(f(line.x1), x1)
                && nearly_eq(f(line.y1), y1)
                && nearly_eq(f(line.x2), x2)
                && nearly_eq(f(line.y2), y2)
        } else {
            false
        }
    })
}

fn nearly_eq(a: f64, c: f64) -> bool {
    (a - c).abs() < 1e-6
}

fn doc_of(entities: Vec<Entity>, block_defs: Vec<BlockDef>) -> JwwDocument {
    JwwDocument { header: empty_header(), entities, block_defs }
}

fn full_circle(base: EntityBase, radius: f64, flatness: f64) -> Arc {
    Arc {
        base,
        center_x: b(3.0),
        center_y: b(4.0),
        radius: b(radius),
        start_angle: b(0.5),
        arc_angle: b(1.0),
        tilt_angle: b(0.0),
        flatness: b(flatness),
        is_full_circle: true,
    }
}

#[test]
fn pen_colors_map_to_color_indices() {
    let expected = [(1u16, 7), (8, 7), (2, 5), (3, 1), (4, 6), (5, 3), (6, 4), (7, 2), (9, 8)];
    for (pen, color) in expected {
        assert_eq!(map_color(pen), color);
    }
    assert_eq!(map_color(0), 1);
    assert_eq!(map_color(10), 10);
    assert_eq!(map_color(254), 254);
    assert_eq!(map_color(255), 1);
    assert_eq!(map_color(256), 1);
    assert_eq!(map_color(257), 2);
    assert_eq!(map_color(65535), 1);
    assert_eq!(map_color(65534), 254);
}

#[test]
fn pen_styles_map_to_line_types() {
    assert_eq!(map_line_type(0), "CONTINUOUS");
    assert_eq!(map_line_type(1), "DASHED");
    assert_eq!(map_line_type(2), "DASHDOT");
    assert_eq!(map_line_type(3), "DOT");
    assert_eq!(map_line_type(4), "DASHED2");
    assert_eq!(map_line_type(5), "BYLAYER");
    assert_eq!(map_line_type(255), "BYLAYER");
}

#[test]
fn layers_are_all_256_with_default_names_for_blanks() {
    let mut header = empty_header();
    header.layer_groups[0].layers[0].name = String::new();
    header.layer_groups[10].layers[11].name = String::new();
    header.layer_groups[1].layers[2].name = " wall ".to_string();
    header.layer_groups[1].layers[2].state = 2;
    header.layer_groups[1].layers[2].protect = 1;
    let doc = JwwDocument { header, entities: vec![], block_defs: vec![] };
    let layers = convert_layers(&doc);
    assert_eq!(layers.len(), 256);
    assert_eq!(layers[0].name, "0-0");
    assert_eq!(layers[10 * 16 + 11].name, "A-B");
    assert_eq!(layers[18].name, " wall ");
    assert_eq!(layers[0].color, 1);
    assert_eq!(layers[18].color, 19);
    assert_eq!(layers[253].color, 254);
    assert_eq!(layers[254].color, 255);
    assert_eq!(layers[255].color, 1);
    assert!(layers[0].frozen);
    assert!(!layers[0].locked);
    assert!(!layers[18].frozen);
    assert!(layers[18].locked);
    assert!(layers.iter().all(|l| l.line_type == "CONTINUOUS"));
    assert_eq!(convert_document(&doc, &Fpu).layers, layers);

    assert_eq!(layer_name(&doc, 1, 2), "wall");
    assert_eq!(layer_name(&doc, 0, 0), "0-0");
    assert_eq!(layer_name(&doc, 3, 4), "3-4");
    assert_eq!(layer_name(&doc, 16, 2), "10-2");
    assert_eq!(layer_name(&doc, 2, 255), "2-FF");
}

#[test]
fn conversion_keeps_counts_and_styles() {
    let base = EntityBase { pen_style: 2, pen_color: 3, layer: 5, layer_group: 1, ..EntityBase::default() };
    let point = |is_temporary| {
        Entity::Point(Point {
            base,
            x: b(1.0),
            y: b(2.0),
            is_temporary,
            code: 0,
            angle: b(0.0),
            scale: b(0.0),
        })
    };
    let solid = Entity::Solid(Solid {
        base,
        point1_x: b(1.0),
        point1_y: b(2.0),
        point2_x: b(3.0),
        point2_y: b(4.0),
        point3_x: b(5.0),
        point3_y: b(6.0),
        point4_x: b(7.0),
        point4_y: b(8.0),
        color: None,
    });
    let doc = doc_of(
        vec![
            Entity::Line(line(base, 0.0, 0.0, 1.0, 1.0)),
            point(true),
            point(false),
            Entity::Text(text(base, 1.0, 2.0, 0.0, "t")),
            solid,
            Entity::Block(block(base, 1.0, 2.0, 1.0, 8)),
            Entity::Dimension(Dimension {
                base,
                line: line(EntityBase::default(), 0.0, 1.0, 10.0, 1.0),
                text: text(EntityBase::default(), 5.0, 2.0, 3.0, "1000"),
                sxf_mode: None,
                aux_lines: vec![],
                aux_points: vec![],
            }),
            Entity::Line(line(base, 2.0, 2.0, 3.0, 3.0)),
        ],
        vec![block_def(8, "", vec![Entity::Line(line(base, 0.0, 0.0, 1.0, 1.0)), point(true)])],
    );
    let dxf = convert_document(&doc, &Fpu);
    let types = dxf.entities.iter().map(DxfEntity::entity_type).collect::<Vec<_>>();
    assert_eq!(types, vec!["LINE", "POINT", "TEXT", "SOLID", "INSERT", "LINE", "TEXT", "LINE"]);
    assert!(dxf.unsupported_entities.is_empty());
    match &dxf.entities[0] {
        DxfEntity::Line(v) => {
            assert_eq!(v.layer, "1-5");
            assert_eq!(v.color, 1);
            assert_eq!(v.line_type, "DASHDOT");
            assert_eq!((f(v.x1), f(v.y1), f(v.x2), f(v.y2)), (0.0, 0.0, 1.0, 1.0));
        }
        other => panic!("expected LINE, got {:?}", other),
    }
    let no_number = convert_document(
        &doc_of(vec![Entity::Text(text(base, 1.0, 2.0, f64::NAN, "t"))], vec![]),
        &Fpu,
    );
    match &no_number.entities[0] {
        DxfEntity::Text(v) => assert_eq!(f(v.height), 2.5),
        other => panic!("expected TEXT, got {:?}", other),
    }
    match &dxf.entities[2] {
        DxfEntity::Text(v) => {
            assert_eq!(f(v.height), 2.5);
            assert_eq!(v.style, "STANDARD");
            assert_eq!(v.content, "t");
        }
        other => panic!("expected TEXT, got {:?}", other),
    }
    match &dxf.entities[3] {
        DxfEntity::Solid(v) => {
            assert_eq!((f(v.x1), f(v.y1), f(v.x2), f(v.y2)), (1.0, 2.0, 3.0, 4.0));
            assert_eq!((f(v.x3), f(v.y3), f(v.x4), f(v.y4)), (5.0, 6.0, 7.0, 8.0));
        }
        other => panic!("expected SOLID, got {:?}", other),
    }
    match &dxf.entities[4] {
        DxfEntity::Insert(v) => assert_eq!(v.block_name, "BLOCK_8"),
        other => panic!("expected INSERT, got {:?}", other),
    }
    match (&dxf.entities[5], &dxf.entities[6]) {
        (DxfEntity::Line(l), DxfEntity::Text(t)) => {
            assert_eq!(l.layer, "1-5");
            assert_eq!(t.line_type, "DASHDOT");
            assert_eq!(f(l.y1), 1.0);
            assert_eq!(f(t.height), 3.0);
            assert_eq!(t.content, "1000");
        }
        other => panic!("expected LINE and TEXT, got {:?}", other),
    }
    assert_eq!(dxf.blocks.len(), 1);
    assert_eq!(dxf.blocks[0].name, "BLOCK_8");
    assert_eq!(f(dxf.blocks[0].base_x), 0.0);
    assert_eq!(dxf.blocks[0].entities.len(), 1);
}

#[test]
fn an_insert_to_a_number_without_definition_is_named_by_the_number() {
    let doc = doc_of(vec![Entity::Block(block(EntityBase::default(), 0.0, 0.0, 1.0, 31))], vec![]);
    let dxf = convert_document(&doc, &Fpu);
    match &dxf.entities[0] {
        DxfEntity::Insert(v) => {
            assert_eq!(v.block_name, "BLOCK_31");
            assert_eq!(f(v.rotation), 0.0);
        }
        other => panic!("expected INSERT, got {:?}", other),
    }
    let mut turned = block(EntityBase::default(), 0.0, 0.0, 1.0, 31);
    turned.rotation = b(std::f64::consts::PI);
    let doc = doc_of(vec![Entity::Block(turned)], vec![]);
    match &convert_document(&doc, &Fpu).entities[0] {
        DxfEntity::Insert(v) => assert_eq!(f(v.rotation), 180.0),
        other => panic!("expected INSERT, got {:?}", other),
    }
}

#[test]
fn a_full_circle_stays_a_circle() {
    let base = EntityBase::default();
    let out = convert_arc(&full_circle(base, 2.0, 1.0), "L".to_string(), 3, "DOT".to_string(), &Fpu);
    assert_eq!(out.len(), 1);
    match &out[0] {
        DxfEntity::Circle(v) => {
            assert_eq!((f(v.center_x), f(v.center_y), f(v.radius)), (3.0, 4.0, 2.0));
            assert_eq!((v.layer.as_str(), v.color, v.line_type.as_str()), ("L", 3, "DOT"));
        }
        other => panic!("expected CIRCLE, got {:?}", other),
    }
}

#[test]
fn a_flattened_arc_becomes_an_ellipse() {
    let base = EntityBase::default();
    let out = convert_arc(&full_circle(base, 2.0, 0.5), String::new(), 1, String::new(), &Fpu);
    match &out[0] {
        DxfEntity::Ellipse(v) => {
            assert_eq!((f(v.center_x), f(v.center_y)), (3.0, 4.0));
            assert_eq!((f(v.major_axis_x), f(v.major_axis_y)), (2.0, 0.0));
            assert_eq!(f(v.minor_ratio), 0.5);
            assert_eq!(f(v.start_param), 0.0);
            assert_eq!(f(v.end_param), 2.0 * std::f64::consts::PI);
        }
        other => panic!("expected ELLIPSE, got {:?}", other),
    }
    let mut tall = full_circle(base, 2.0, 4.0);
    tall.is_full_circle = false;
    let out = convert_arc(&tall, String::new(), 1, String::new(), &Fpu);
    match &out[0] {
        DxfEntity::Ellipse(v) => {
            assert!(f(v.major_axis_x).abs() < 1e-12);
            assert_eq!(f(v.major_axis_y), 8.0);
            assert_eq!(f(v.minor_ratio), 0.25);
            assert_eq!(f(v.start_param), 0.5);
            assert_eq!(f(v.end_param), 1.5);
        }
        other => panic!("expected ELLIPSE, got {:?}", other),
    }
}

#[test]
fn an_open_arc_becomes_an_arc_in_degrees() {
    let base = EntityBase::default();
    let mut arc = full_circle(base, 2.0, 1.0);
    arc.is_full_circle = false;
    arc.start_angle = b(std::f64::consts::FRAC_PI_2);
    arc.arc_angle = b(std::f64::consts::FRAC_PI_2);
    let out = convert_arc(&arc, String::new(), 1, String::new(), &Fpu);
    match &out[0] {
        DxfEntity::Arc(v) => {
            assert_eq!((f(v.center_x), f(v.center_y), f(v.radius)), (3.0, 4.0, 2.0));
            assert_eq!(f(v.start_angle), 90.0);
            assert_eq!(f(v.end_angle), 180.0);
        }
        other => panic!("expected ARC, got {:?}", other),
    }
}

#[test]
fn temporary_points_yield_nothing() {
    let base = EntityBase::default();
    let temporary = Entity::Point(Point {
        base,
        x: b(1.0),
        y: b(2.0),
        is_temporary: true,
        code: 0,
        angle: b(0.0),
        scale: b(0.0),
    });
    let doc = doc_of(vec![temporary.clone()], vec![block_def(1, "B", vec![temporary.clone()])]);
    let names = std::collections::HashMap::new();
    assert_eq!(convert_entity(&doc, &temporary, &names, &Fpu), Some(vec![]));
    assert!(convert_document(&doc, &Fpu).entities.is_empty());
    let exploded = doc_of(
        vec![temporary.clone(), Entity::Block(block(base, 0.0, 0.0, 1.0, 1))],
        vec![block_def(1, "B", vec![temporary])],
    );
    let dxf = convert_document_with_options(&exploded, exploding(32), &Fpu);
    assert!(dxf.entities.is_empty());
    assert!(dxf.unsupported_entities.is_empty());
}

#[test]
fn segment_counts_are_clamped() {
    assert_eq!(arc_segments(0), 8);
    assert_eq!(arc_segments(8), 8);
    assert_eq!(arc_segments(96), 96);
    assert_eq!(arc_segments(192), 192);
    assert_eq!(arc_segments(193), 192);
    assert_eq!(arc_segments(usize::MAX), 192);
    assert_eq!(ellipse_segments(0), 12);
    assert_eq!(ellipse_segments(128), 128);
    assert_eq!(ellipse_segments(257), 256);
}

fn dxf_arc(start: f64, end: f64) -> DxfArc {
    DxfArc {
        layer: "L".to_string(),
        color: 2,
        line_type: "DOT".to_string(),
        center_x: b(1.0),
        center_y: b(1.0),
        radius: b(2.0),
        start_angle: b(start),
        end_angle: b(end),
    }
}

#[test]
fn an_arc_is_flattened_to_connected_lines() {
    let identity = Transform2D::identity();
    let quarter = transform_arc_for_explode(&dxf_arc(0.0, 90.0), &identity, &Fpu);
    assert_eq!(quarter.len(), 24);
    let wide = transform_arc_for_explode(&dxf_arc(0.0, 1000.0), &identity, &Fpu);
    assert_eq!(wide.len(), 192);
    let tiny = transform_arc_for_explode(&dxf_arc(0.0, 1.0), &identity, &Fpu);
    assert_eq!(tiny.len(), 8);
    let wrapped = transform_arc_for_explode(&dxf_arc(350.0, 10.0), &identity, &Fpu);
    assert_eq!(wrapped.len(), 8);
    // 10 is raised by three turns to 1090, which leaves a sweep of 290 degrees.
    let turns = transform_arc_for_explode(&dxf_arc(800.0, 10.0), &identity, &Fpu);
    assert_eq!(turns.len(), 78);
    let endless = transform_arc_for_explode(&dxf_arc(f64::INFINITY, 10.0), &identity, &Fpu);
    assert_eq!(endless.len(), 192);
    let no_number = transform_arc_for_explode(&dxf_arc(f64::NAN, 10.0), &identity, &Fpu);
    assert_eq!(no_number.len(), 8);
    for lines in [&quarter, &wide, &tiny, &wrapped] {
        for pair in lines.windows(2) {
            match (&pair[0], &pair[1]) {
                (DxfEntity::Line(p), DxfEntity::Line(q)) => {
                    assert_eq!((p.x2, p.y2), (q.x1, q.y1));
                    assert_eq!((q.layer.as_str(), q.color, q.line_type.as_str()), ("L", 2, "DOT"));
                }
                other => panic!("expected lines, got {:?}", other),
            }
        }
    }
    match (&quarter[0], &quarter[23]) {
        (DxfEntity::Line(first), DxfEntity::Line(last)) => {
            assert!(nearly_eq(f(first.x1), 3.0) && nearly_eq(f(first.y1), 1.0));
            assert!(nearly_eq(f(last.x2), 1.0) && nearly_eq(f(last.y2), 3.0));
        }
        other => panic!("expected lines, got {:?}", other),
    }
}

#[test]
fn an_ellipse_is_flattened_to_connected_lines() {
    let ellipse = DxfEllipse {
        layer: "L".to_string(),
        color: 2,
        line_type: "DOT".to_string(),
        center_x: b(0.0),
        center_y: b(0.0),
        major_axis_x: b(4.0),
        major_axis_y: b(0.0),
        minor_ratio: b(0.5),
        start_param: b(0.0),
        end_param: b(2.0 * std::f64::consts::PI),
    };
    let lines = transform_ellipse_for_explode(&ellipse, &Transform2D::identity(), &Fpu);
    assert_eq!(lines.len(), 128);
    assert!(contains_line_start(&lines, 4.0, 0.0));
    assert!(contains_line_start(&lines, 0.0, 2.0));
    assert!(contains_line_start(&lines, -4.0, 0.0));
    let mut closed = ellipse.clone();
    closed.end_param = b(0.0);
    assert_eq!(transform_ellipse_for_explode(&closed, &Transform2D::identity(), &Fpu).len(), 128);
    let mut short = ellipse.clone();
    short.end_param = b(0.1);
    assert_eq!(transform_ellipse_for_explode(&short, &Transform2D::identity(), &Fpu).len(), 12);
    // -20 is raised by four turns to just above 5, which leaves a span of about 0.13.
    let mut turns = ellipse;
    turns.start_param = b(5.0);
    turns.end_param = b(-20.0);
    assert_eq!(transform_ellipse_for_explode(&turns, &Transform2D::identity(), &Fpu).len(), 12);
}

fn contains_line_start(entities: &[DxfEntity], x: f64, y: f64) -> bool {
    entities.iter().any(|entity| match entity {
        DxfEntity::Line(v) => nearly_eq(f(v.x1), x) && nearly_eq(f(v.y1), y),
        _ => false,
    })
}

fn placed(scale_x: f64, scale_y: f64, rotation: f64) -> Transform2D {
    Transform2D::from_insert(
        &Block {
            base: EntityBase::default(),
            ref_x: b(10.0),
            ref_y: b(20.0),
            scale_x: b(scale_x),
            scale_y: b(scale_y),
            rotation: b(rotation),
            def_number: 1,
        },
        &Fpu,
    )
}

fn dxf_circle(radius: f64) -> DxfCircle {
    DxfCircle {
        layer: "L".to_string(),
        color: 2,
        line_type: "DOT".to_string(),
        center_x: b(1.0),
        center_y: b(0.0),
        radius: b(radius),
    }
}

#[test]
fn a_circle_under_a_uniform_transform_stays_a_circle() {
    let out = transform_circle_for_explode(&dxf_circle(2.0), &placed(3.0, 3.0, 0.7), &Fpu);
    assert_eq!(out.len(), 1);
    match &out[0] {
        DxfEntity::Circle(v) => {
            assert!(nearly_eq(f(v.radius), 6.0));
            assert!(nearly_eq(f(v.center_x), 10.0 + 3.0 * 0.7f64.cos()));
            assert!(nearly_eq(f(v.center_y), 20.0 + 3.0 * 0.7f64.sin()));
            assert_eq!((v.layer.as_str(), v.color, v.line_type.as_str()), ("L", 2, "DOT"));
        }
        other => panic!("expected CIRCLE, got {:?}", other),
    }
    let same = transform_circle_for_explode(&dxf_circle(2.0), &Transform2D::identity(), &Fpu);
    match &same[0] {
        DxfEntity::Circle(v) => assert_eq!((f(v.center_x), f(v.center_y), f(v.radius)), (1.0, 0.0, 2.0)),
        other => panic!("expected CIRCLE, got {:?}", other),
    }
}

#[test]
fn a_circle_under_a_non_uniform_transform_becomes_an_ellipse() {
    let out = transform_circle_for_explode(&dxf_circle(2.0), &placed(3.0, 1.0, 0.0), &Fpu);
    match &out[0] {
        DxfEntity::Ellipse(v) => {
            assert_eq!((f(v.major_axis_x), f(v.major_axis_y)), (6.0, 0.0));
            assert!(nearly_eq(f(v.minor_ratio), 1.0 / 3.0));
            assert_eq!(f(v.start_param), 0.0);
            assert_eq!(f(v.end_param), 2.0 * std::f64::consts::PI);
            assert_eq!((f(v.center_x), f(v.center_y)), (13.0, 20.0));
        }
        other => panic!("expected ELLIPSE, got {:?}", other),
    }
    let out = transform_circle_for_explode(&dxf_circle(2.0), &placed(1.0, 4.0, 0.0), &Fpu);
    match &out[0] {
        DxfEntity::Ellipse(v) => {
            assert_eq!((f(v.major_axis_x), f(v.major_axis_y)), (0.0, 8.0));
            assert!(nearly_eq(f(v.minor_ratio), 0.25));
        }
        other => panic!("expected ELLIPSE, got {:?}", other),
    }
    let base = EntityBase::default();
    let mut stretch = block(base, 0.0, 0.0, 1.0, 1);
    stretch.scale_x = b(2.0);
    let doc = doc_of(
        vec![Entity::Block(stretch)],
        vec![block_def(1, "B", vec![Entity::Arc(full_circle(base, 1.0, 1.0))])],
    );
    let dxf = convert_document_with_options(&doc, exploding(32), &Fpu);
    let types = dxf.entities.iter().map(DxfEntity::entity_type).collect::<Vec<_>>();
    assert_eq!(types, vec!["ELLIPSE"]);
}

#[test]
fn the_image_of_a_circle_goes_by_the_lengths_of_its_radii() {
    let zero = b(0.0);
    assert_eq!(circle_image(b(1e-12), b(1e-13), true, zero), CircleImage::Point);
    assert_eq!(circle_image(b(2.0), b(2.0), true, b(-9e-7)), CircleImage::Circle);
    assert_eq!(circle_image(b(2.0), b(2.0), true, b(1e-6)), CircleImage::EllipseAlongFirst);
    assert_eq!(circle_image(b(2.0), b(2.0), false, zero), CircleImage::EllipseAlongFirst);
    assert_eq!(circle_image(b(2.0), b(3.0), false, zero), CircleImage::EllipseAlongSecond);
    assert_eq!(circle_image(b(2.0), b(1e-13), false, zero), CircleImage::EllipseAlongFirst);
    assert_eq!(circle_image(b(f64::NAN), b(3.0), true, zero), CircleImage::Circle);
    assert_eq!(circle_image(b(f64::NAN), b(3.0), false, zero), CircleImage::EllipseAlongSecond);
}

#[test]
fn a_circle_that_shrinks_to_nothing_becomes_a_point() {
    let out = transform_circle_for_explode(&dxf_circle(2.0), &placed(0.0, 0.0, 0.0), &Fpu);
    match &out[0] {
        DxfEntity::Point(v) => assert_eq!((f(v.x), f(v.y)), (10.0, 20.0)),
        other => panic!("expected POINT, got {:?}", other),
    }
}

#[test]
fn a_text_grows_and_turns_with_the_transform() {
    let source = DxfEntity::Text(DxfText {
        layer: "L".to_string(),
        color: 2,
        line_type: "DOT".to_string(),
        x: b(1.0),
        y: b(0.0),
        height: b(2.0),
        rotation: b(10.0),
        content: "abc".to_string(),
        style: "STANDARD".to_string(),
    });
    let out = transform_entity_for_explode(&source, &placed(3.0, 3.0, std::f64::consts::FRAC_PI_2), &Fpu);
    match &out[0] {
        DxfEntity::Text(v) => {
            assert!(nearly_eq(f(v.height), 6.0));
            assert!(nearly_eq(f(v.rotation), 100.0));
            assert!(nearly_eq(f(v.x), 10.0) && nearly_eq(f(v.y), 23.0));
            assert_eq!(v.content, "abc");
        }
        other => panic!("expected TEXT, got {:?}", other),
    }
    let out = transform_entity_for_explode(&source, &placed(0.001, 0.001, 0.0), &Fpu);
    match &out[0] {
        DxfEntity::Text(v) => assert_eq!(f(v.height), 0.1),
        other => panic!("expected TEXT, got {:?}", other),
    }
    let insert = DxfEntity::Insert(DxfInsert {
        layer: "L".to_string(),
        color: 2,
        line_type: "DOT".to_string(),
        block_name: "B".to_string(),
        x: b(1.0),
        y: b(1.0),
        scale_x: b(5.0),
        scale_y: b(6.0),
        rotation: b(0.0),
    });
    match &transform_entity_for_explode(&insert, &placed(2.0, 2.0, 0.0), &Fpu)[0] {
        DxfEntity::Insert(v) => {
            assert_eq!((f(v.x), f(v.y)), (12.0, 22.0));
            assert_eq!((f(v.scale_x), f(v.scale_y)), (5.0, 6.0));
            assert_eq!(v.block_name, "B");
        }
        other => panic!("expected INSERT, got {:?}", other),
    }
}

#[test]
fn diagnostics_come_in_the_order_of_the_walk() {
    let base = EntityBase::default();
    let doc = doc_of(
        vec![
            Entity::Block(block(base, 0.0, 0.0, 1.0, 7)),
            Entity::Block(block(base, 0.0, 0.0, 1.0, 1)),
            Entity::Line(line(base, 0.0, 0.0, 1.0, 0.0)),
            Entity::Block(block(base, 0.0, 0.0, 1.0, 3)),
        ],
        vec![
            block_def(
                1,
                "B1",
                vec![
                    Entity::Block(block(base, 0.0, 0.0, 1.0, 1)),
                    Entity::Block(block(base, 0.0, 0.0, 1.0, 2)),
                    Entity::Block(block(base, 0.0, 0.0, 1.0, 8)),
                ],
            ),
            block_def(2, "B2", vec![Entity::Block(block(base, 0.0, 0.0, 1.0, 3))]),
            block_def(3, "B3", vec![Entity::Line(line(base, 0.0, 0.0, 1.0, 0.0))]),
        ],
    );
    let dxf = convert_document_with_options(&doc, exploding(2), &Fpu);
    assert_eq!(
        dxf.unsupported_entities,
        vec!["UNRESOLVED_BLOCK(7)", "BLOCK_CYCLE(1)", "BLOCK_DEPTH_LIMIT(3)", "UNRESOLVED_BLOCK(8)"]
    );
    assert_eq!(dxf.entities.len(), 2);
    assert!(dxf.blocks.is_empty());
    let none = convert_document_with_options(&doc, exploding(0), &Fpu);
    assert_eq!(
        none.unsupported_entities,
        vec!["BLOCK_DEPTH_LIMIT(7)", "BLOCK_DEPTH_LIMIT(1)", "BLOCK_DEPTH_LIMIT(3)"]
    );
    assert_eq!(none.entities.len(), 1);
}

#[test]
fn of_two_definitions_with_one_number_the_last_is_exploded() {
    let base = EntityBase::default();
    let doc = doc_of(
        vec![Entity::Block(block(base, 0.0, 0.0, 1.0, 1))],
        vec![
            block_def(1, "first", vec![]),
            block_def(1, "last", vec![Entity::Line(line(base, 0.0, 0.0, 1.0, 0.0))]),
        ],
    );
    assert_eq!(convert_document_with_options(&doc, exploding(32), &Fpu).entities.len(), 1);
    match &convert_document(&doc, &Fpu).entities[0] {
        DxfEntity::Insert(v) => assert_eq!(v.block_name, "last"),
        other => panic!("expected INSERT, got {:?}", other),
    }
}

fn text_record(code: i32, value: &str) -> Record {
    Record { code, value: Value::Text(value.to_string()) }
}

fn find(records: &[Record], wanted: &[Record]) -> Option<usize> {
    records.windows(wanted.len()).position(|w| w == wanted)
}

#[test]
fn records_of_a_small_document() {
    let line = DxfEntity::Line(DxfLine {
        layer: "wall".to_string(),
        color: 3,
        line_type: "DASHED".to_string(),
        x1: b(1.0),
        y1: b(2.0),
        x2: b(3.0),
        y2: b(4.0),
    });
    let dxf = DxfDocument {
        layers: vec![
            DxfLayer {
                name: "b".to_string(),
                color: 2,
                line_type: "DOT".to_string(),
                frozen: true,
                locked: true,
            },
            DxfLayer {
                name: "a".to_string(),
                color: 1,
                line_type: "CONTINUOUS".to_string(),
                frozen: false,
                locked: true,
            },
            DxfLayer {
                name: "b".to_string(),
                color: 9,
                line_type: "ZIGZAG".to_string(),
                frozen: false,
                locked: false,
            },
        ],
        entities: vec![line.clone()],
        blocks: vec![DxfBlock {
            name: "Door".to_string(),
            base_x: b(0.0),
            base_y: b(0.0),
            entities: vec![line],
        }],
        unsupported_entities: vec![],
    };
    let records = document_records(&dxf);
    assert_eq!(records[0], text_record(0, "SECTION"));
    assert_eq!(records[1], text_record(2, "HEADER"));
    assert_eq!(records[2], text_record(9, "$ACADVER"));
    assert_eq!(records[3], text_record(1, "AC1015"));
    assert_eq!(records[records.len() - 1], text_record(0, "EOF"));

    let sections = records
        .windows(2)
        .filter(|w| w[0] == text_record(0, "SECTION"))
        .map(|w| w[1].clone())
        .collect::<Vec<_>>();
    assert_eq!(
        sections,
        vec![
            text_record(2, "HEADER"),
            text_record(2, "TABLES"),
            text_record(2, "BLOCKS"),
            text_record(2, "ENTITIES"),
            text_record(2, "OBJECTS"),
        ]
    );

    // Block records take the handles 1 to 3; the tables go on from 4.
    // Line types in order: BYBLOCK, BYLAYER, CONTINUOUS, DASHED, DOT, ZIGZAG.
    let ltype = find(&records, &[text_record(0, "TABLE"), text_record(2, "LTYPE")]).unwrap();
    assert_eq!(records[ltype + 2], text_record(5, "4"));
    assert_eq!(records[ltype + 3], Record { code: 70, value: Value::Integer(6) });
    let names = records
        .windows(3)
        .filter(|w| w[0] == text_record(0, "LTYPE"))
        .map(|w| (w[1].clone(), w[2].clone()))
        .collect::<Vec<_>>();
    assert_eq!(
        names,
        vec![
            (text_record(5, "5"), text_record(2, "BYBLOCK")),
            (text_record(5, "6"), text_record(2, "BYLAYER")),
            (text_record(5, "7"), text_record(2, "CONTINUOUS")),
            (text_record(5, "8"), text_record(2, "DASHED")),
            (text_record(5, "9"), text_record(2, "DOT")),
            (text_record(5, "A"), text_record(2, "ZIGZAG")),
        ]
    );
    let dashed = find(&records, &[text_record(5, "8"), text_record(2, "DASHED")]).unwrap();
    assert_eq!(
        records[dashed + 2..dashed + 9],
        [
            Record { code: 70, value: Value::Integer(0) },
            text_record(3, "Dashed line"),
            Record { code: 72, value: Value::Integer(65) },
            Record { code: 73, value: Value::Integer(2) },
            Record { code: 40, value: Value::Real(b(0.6 + 0.3)) },
            Record { code: 49, value: Value::Real(b(0.6)) },
            Record { code: 49, value: Value::Real(b(-0.3)) },
        ]
    );

    // Layers: "0", then by name, of two with one name the first.
    let layer = find(&records, &[text_record(0, "TABLE"), text_record(2, "LAYER")]).unwrap();
    assert_eq!(
        records[layer + 2..layer + 22],
        [
            text_record(5, "B"),
            Record { code: 70, value: Value::Integer(3) },
            text_record(0, "LAYER"),
            text_record(5, "C"),
            text_record(2, "0"),
            Record { code: 70, value: Value::Integer(0) },
            Record { code: 62, value: Value::Integer(7) },
            text_record(6, "CONTINUOUS"),
            text_record(0, "LAYER"),
            text_record(5, "D"),
            text_record(2, "a"),
            Record { code: 70, value: Value::Integer(4) },
            Record { code: 62, value: Value::Integer(1) },
            text_record(6, "CONTINUOUS"),
            text_record(0, "LAYER"),
            text_record(5, "E"),
            text_record(2, "b"),
            Record { code: 70, value: Value::Integer(5) },
            Record { code: 62, value: Value::Integer(2) },
            text_record(6, "DOT"),
        ]
    );

    let table = find(&records, &[text_record(0, "TABLE"), text_record(2, "BLOCK_RECORD")]).unwrap();
    assert_eq!(records[table + 2], text_record(5, "11"));
    assert_eq!(records[table + 3], Record { code: 70, value: Value::Integer(3) });
    assert_eq!(
        records[table + 4..table + 10],
        [
            text_record(0, "BLOCK_RECORD"),
            text_record(5, "1"),
            text_record(330, "0"),
            text_record(100, "AcDbSymbolTableRecord"),
            text_record(100, "AcDbBlockTableRecord"),
            text_record(2, "*Model_Space"),
        ]
    );
    assert_eq!(records[table + 17], text_record(5, "3"));
    assert_eq!(records[table + 21], text_record(2, "Door"));

    // The blocks: model space 12, 13; paper space 14, 15; Door 16, its line 17, its end 18.
    let door = find(&records, &[text_record(2, "Door"), Record { code: 70, value: Value::Integer(0) }])
        .unwrap();
    assert_eq!(
        records[door - 6..door],
        [
            text_record(0, "BLOCK"),
            text_record(5, "16"),
            text_record(330, "3"),
            text_record(100, "AcDbEntity"),
            text_record(8, "0"),
            text_record(100, "AcDbBlockBegin"),
        ]
    );
    assert_eq!(
        records[door + 7..door + 23],
        [
            text_record(0, "LINE"),
            text_record(5, "17"),
            text_record(330, "3"),
            text_record(8, "wall"),
            Record { code: 62, value: Value::Integer(3) },
            text_record(6, "DASHED"),
            Record { code: 10, value: Value::Real(b(1.0)) },
            Record { code: 20, value: Value::Real(b(2.0)) },
            Record { code: 30, value: Value::Real(b(0.0)) },
            Record { code: 11, value: Value::Real(b(3.0)) },
            Record { code: 21, value: Value::Real(b(4.0)) },
            Record { code: 31, value: Value::Real(b(0.0)) },
            text_record(0, "ENDBLK"),
            text_record(5, "18"),
            text_record(330, "3"),
            text_record(100, "AcDbEntity"),
        ]
    );

    let entities = find(&records, &[text_record(0, "SECTION"), text_record(2, "ENTITIES")]).unwrap();
    assert_eq!(
        records[entities + 2..entities + 5],
        [text_record(0, "LINE"), text_record(5, "19"), text_record(330, "1")]
    );
    let objects = find(&records, &[text_record(0, "SECTION"), text_record(2, "OBJECTS")]).unwrap();
    assert_eq!(
        records[objects + 2..],
        [
            text_record(0, "DICTIONARY"),
            text_record(5, "1A"),
            text_record(330, "0"),
            text_record(100, "AcDbDictionary"),
            Record { code: 281, value: Value::Integer(1) },
            text_record(0, "ENDSEC"),
            text_record(0, "EOF"),
        ]
    );

    let handles = records.iter().filter(|r| r.code == 5).map(|r| r.value.clone()).collect::<Vec<_>>();
    assert_eq!(handles.len(), 0x1A);
    for (i, one) in handles.iter().enumerate() {
        for other in &handles[i + 1..] {
            assert_ne!(one, other);
        }
    }
}

#[test]
fn groups_are_laid_out_in_two_lines() {
    let records = vec![
        text_record(0, "SECTION"),
        Record { code: 62, value: Value::Integer(-7) },
        Record { code: 330, value: Value::Text("1F".to_string()) },
        Record { code: 1000, value: Value::Integer(256) },
        Record { code: 10, value: Value::Real(b(1.5)) },
        Record { code: -5, value: Value::Real(b(-0.25)) },
        text_record(1, ""),
    ];
    assert_eq!(
        ezjww::render_records(&records, &Fpu),
        "  0\nSECTION\n 62\n-7\n330\n1F\n1000\n256\n 10\n1.500000000000\n -5\n-0.250000000000\n  1\n\n"
    );
    assert_eq!(ezjww::render_records(&[], &Fpu), "");
}

#[test]
fn many_handles_count_on_in_hexadecimal() {
    let line = DxfEntity::Line(DxfLine {
        layer: "0".to_string(),
        color: 1,
        line_type: "CONTINUOUS".to_string(),
        x1: b(0.0),
        y1: b(0.0),
        x2: b(1.0),
        y2: b(1.0),
    });
    let dxf = DxfDocument {
        layers: vec![],
        entities: vec![line; 300],
        blocks: vec![],
        unsupported_entities: vec![],
    };
    let records = document_records(&dxf);
    let handles = records
        .iter()
        .filter(|r| r.code == 5)
        .map(|r| match &r.value {
            Value::Text(s) => u64::from_str_radix(s, 16).unwrap(),
            other => panic!("expected a text, got {:?}", other),
        })
        .collect::<Vec<_>>();
    // Three line types, layer 0, the tables, two blocks, 300 lines, the dictionary.
    assert_eq!(handles.len(), 2 + 4 + 2 + 2 + 1 + 4 + 300 + 1);
    let mut sorted = handles.clone();
    sorted.sort();
    assert_eq!(sorted, (1..=handles.len() as u64).collect::<Vec<_>>());
    assert!(records.contains(&text_record(5, "FF")));
    assert!(records.contains(&text_record(5, "100")));
    assert!(records.contains(&text_record(5, "13C")));
    let out = document_to_string(&dxf, &Fpu);
    assert!(out.starts_with("  0\nSECTION\n  2\nHEADER\n"));
    assert!(out.ends_with("  0\nEOF\n"));
    assert!(out.contains("  5\n13C\n"));
}

#[test]
fn names_are_escaped_in_the_output() {
    let dxf = DxfDocument {
        layers: vec![],
        entities: vec![DxfEntity::Text(DxfText {
            layer: "a\\b".to_string(),
            color: 7,
            line_type: "CONTINUOUS".to_string(),
            x: b(0.0),
            y: b(0.0),
            height: b(2.5),
            rotation: b(0.0),
            content: "one\r\ntwo\ttab \u{1F600} del\u{7F}".to_string(),
            style: "STANDARD".to_string(),
        })],
        blocks: vec![],
        unsupported_entities: vec![],
    };
    let out = document_to_string(&dxf, &Fpu);
    assert!(out.contains("  8\na\\\\b\n"));
    assert!(out.contains("  1\none\\Ptwo\\U+0009tab \\U+1F600 del\\U+007F\n"));
    assert!(out.contains(" 40\n2.500000000000\n"));
}

#[test]
fn a_block_that_holds_itself_is_opened_once() {
    let base = EntityBase::default();
    let itself = block_def(
        1,
        "Loop",
        vec![Entity::Line(line(base, 0.0, 0.0, 1.0, 0.0)), Entity::Block(block(base, 5.0, 0.0, 1.0, 1))],
    );
    let doc = doc_of(vec![Entity::Block(block(base, 0.0, 0.0, 1.0, 1))], vec![itself]);
    let dxf = convert_document_with_options(&doc, exploding(usize::MAX), &Fpu);
    assert_eq!(dxf.unsupported_entities, vec!["BLOCK_CYCLE(1)"]);
    assert_eq!(dxf.entities.len(), 1);
    assert!(contains_line(&dxf.entities, 0.0, 0.0, 1.0, 0.0));
    assert!(dxf.blocks.is_empty());
}

#[test]
fn an_exploded_circle_keeps_centre_and_radius() {
    let base = EntityBase::default();
    let doc = doc_of(vec![Entity::Arc(full_circle(base, 2.0, 1.0))], Vec::new());
    let dxf = convert_document_with_options(&doc, exploding(32), &Fpu);
    assert_eq!(dxf.entities.len(), 1);
    match &dxf.entities[0] {
        DxfEntity::Circle(v) => {
            assert_eq!((f(v.center_x), f(v.center_y), f(v.radius)), (3.0, 4.0, 2.0));
        }
        other => panic!("expected CIRCLE, got {:?}", other),
    }
}

#[test]
fn a_placement_scales_then_turns_then_moves() {
    let base = EntityBase::default();
    let mut placed_block = block(base, 7.0, -3.0, 1.0, 1);
    placed_block.scale_x = b(2.0);
    placed_block.scale_y = b(3.0);
    placed_block.rotation = b(std::f64::consts::FRAC_PI_2);
    let t = Transform2D::from_insert(&placed_block, &Fpu);
    let cos = std::f64::consts::FRAC_PI_2.cos();
    let sin = std::f64::consts::FRAC_PI_2.sin();
    assert_eq!((f(t.a), f(t.b)), (cos * 2.0, sin * 2.0));
    assert_eq!((f(t.c), f(t.d)), (-sin * 3.0, cos * 3.0));
    assert_eq!((f(t.tx), f(t.ty)), (7.0, -3.0));
    let plain = Transform2D::from_insert(&block(base, 0.0, 0.0, 1.0, 1), &Fpu);
    assert_eq!((f(plain.a), f(plain.b), f(plain.c), f(plain.d)), (1.0, 0.0, 0.0, 1.0));
    assert_eq!((f(plain.tx), f(plain.ty)), (0.0, 0.0));
}

#[test]
fn an_insert_turns_in_degrees() {
    let base = EntityBase::default();
    let mut turned = block(base, 1.0, 2.0, 1.5, 9);
    turned.rotation = b(std::f64::consts::PI);
    let doc = doc_of(vec![Entity::Block(turned)], Vec::new());
    let dxf = convert_document(&doc, &Fpu);
    match &dxf.entities[0] {
        DxfEntity::Insert(v) => {
            assert_eq!(f(v.rotation), 180.0);
            assert_eq!((f(v.x), f(v.y), f(v.scale_x), f(v.scale_y)), (1.0, 2.0, 1.5, 1.5));
            assert_eq!(v.block_name, "BLOCK_9");
        }
        other => panic!("expected INSERT, got {:?}", other),
    }
}
