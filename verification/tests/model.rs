use ezjww::{
    collect_entity_coordinates, coordinates_bbox, Arc, Binary64, Block, Coord2D, Dimension, Entity,
    EntityBase, Line, Point, Solid, Text,
};

fn b(v: f64) -> Binary64 {
    Binary64::from_bits(v.to_bits())
}

fn c(x: f64, y: f64) -> Coord2D {
    Coord2D::new(b(x), b(y))
}

#[test]
fn line_common_coordinates_and_bbox() {
    let line = Entity::Line(Line {
        base: EntityBase::default(),
        start_x: b(1.0),
        start_y: b(2.0),
        end_x: b(4.0),
        end_y: b(6.0),
    });

    let coords = line.common_coordinates();
    assert_eq!(coords, vec![c(1.0, 2.0), c(4.0, 6.0)]);

    let (min, max) = line.common_coordinate_bbox().unwrap();
    assert_eq!(min, c(1.0, 2.0));
    assert_eq!(max, c(4.0, 6.0));
}

#[test]
fn dimension_common_coordinates_include_aux() {
    let dim = Entity::Dimension(Dimension {
        base: EntityBase::default(),
        line: Line {
            base: EntityBase::default(),
            start_x: b(0.0),
            start_y: b(0.0),
            end_x: b(10.0),
            end_y: b(0.0),
        },
        text: Text {
            base: EntityBase::default(),
            start_x: b(5.0),
            start_y: b(1.0),
            end_x: b(5.5),
            end_y: b(1.0),
            text_type: 0,
            size_x: b(1.0),
            size_y: b(1.0),
            spacing: b(0.0),
            angle: b(0.0),
            font_name: String::new(),
            content: String::new(),
        },
        sxf_mode: Some(0),
        aux_lines: vec![Line {
            base: EntityBase::default(),
            start_x: b(0.0),
            start_y: b(-1.0),
            end_x: b(10.0),
            end_y: b(-1.0),
        }],
        aux_points: vec![Point {
            base: EntityBase::default(),
            x: b(2.0),
            y: b(2.0),
            is_temporary: false,
            code: 0,
            angle: b(0.0),
            scale: b(1.0),
        }],
    });

    let coords = dim.common_coordinates();
    assert_eq!(coords.len(), 7);
    assert!(coords.contains(&c(0.0, 0.0)));
    assert!(coords.contains(&c(10.0, -1.0)));
    assert!(coords.contains(&c(2.0, 2.0)));
    assert_eq!(
        coords,
        vec![
            c(0.0, 0.0),
            c(10.0, 0.0),
            c(5.0, 1.0),
            c(5.5, 1.0),
            c(0.0, -1.0),
            c(10.0, -1.0),
            c(2.0, 2.0),
        ]
    );
}

#[test]
fn collect_entity_coordinates_works() {
    let entities = vec![
        Entity::Point(Point {
            base: EntityBase::default(),
            x: b(1.0),
            y: b(2.0),
            is_temporary: false,
            code: 0,
            angle: b(0.0),
            scale: b(1.0),
        }),
        Entity::Arc(Arc {
            base: EntityBase::default(),
            center_x: b(-1.0),
            center_y: b(-2.0),
            radius: b(3.0),
            start_angle: b(0.0),
            arc_angle: b(1.0),
            tilt_angle: b(0.0),
            flatness: b(1.0),
            is_full_circle: false,
        }),
        Entity::Solid(Solid {
            base: EntityBase::default(),
            point1_x: b(0.0),
            point1_y: b(0.0),
            point2_x: b(1.0),
            point2_y: b(0.0),
            point3_x: b(1.0),
            point3_y: b(1.0),
            point4_x: b(0.0),
            point4_y: b(1.0),
            color: None,
        }),
    ];

    let all = collect_entity_coordinates(&entities);
    assert_eq!(all.len(), 6);
    let (min, max) = coordinates_bbox(&all).unwrap();
    assert_eq!(min, c(-1.0, -2.0));
    assert_eq!(max, c(1.0, 2.0));
}

#[test]
fn bbox_of_nothing_is_none() {
    assert_eq!(coordinates_bbox(&[]), None);
    assert_eq!(collect_entity_coordinates(&[]), Vec::<Coord2D>::new());
}

#[test]
fn bbox_ignores_nan_beside_numbers() {
    let points = [c(f64::NAN, 1.0), c(3.0, f64::NAN), c(-2.0, 5.0)];
    let (min, max) = coordinates_bbox(&points).unwrap();
    assert_eq!(min, c(-2.0, 1.0));
    assert_eq!(max, c(3.0, 5.0));
}

#[test]
fn entity_type_names() {
    let base = EntityBase::default();
    let arc = Arc {
        base,
        center_x: b(0.0),
        center_y: b(0.0),
        radius: b(1.0),
        start_angle: b(0.0),
        arc_angle: b(1.0),
        tilt_angle: b(0.0),
        flatness: b(1.0),
        is_full_circle: false,
    };
    assert_eq!(Entity::Arc(arc).entity_type(), "ARC");
    assert_eq!(Entity::Arc(Arc { is_full_circle: true, ..arc }).entity_type(), "CIRCLE");
    let block = Entity::Block(Block {
        base,
        ref_x: b(7.0),
        ref_y: b(8.0),
        scale_x: b(1.0),
        scale_y: b(1.0),
        rotation: b(0.0),
        def_number: 1,
    });
    assert_eq!(block.entity_type(), "BLOCK");
    assert_eq!(block.first_coordinate(), Some(c(7.0, 8.0)));
    assert_eq!(*block.base(), base);
}

#[test]
fn binary64_order_is_the_ieee_order() {
    let values = [
        f64::NEG_INFINITY,
        -1.5,
        -0.0,
        0.0,
        f64::MIN_POSITIVE,
        0.1,
        1.0,
        2.5,
        f64::INFINITY,
        f64::NAN,
    ];
    for x in values {
        for y in values {
            assert_eq!(b(x).lt(b(y)), x < y, "{} < {}", x, y);
            assert_eq!(b(x).le(b(y)), x <= y, "{} <= {}", x, y);
            assert_eq!(b(x).ieee_eq(b(y)), x == y, "{} == {}", x, y);
        }
        assert_eq!(b(x).is_nan(), x.is_nan());
        assert_eq!(b(x).abs().to_bits(), x.abs().to_bits());
        assert_eq!(b(x).neg().to_bits(), (-x).to_bits());
    }
    assert_eq!(b(f64::NAN).max(b(0.1)), b(0.1));
    assert_eq!(b(0.05).max(b(0.1)), b(0.1));
    assert_eq!(b(3.0).max(b(0.1)), b(3.0));
    assert_eq!(b(3.0).min(b(f64::NAN)), b(3.0));
    assert_eq!(b(3.0).min(b(-4.0)), b(-4.0));
}
