//! The entity stream: records that name their class through a dictionary
//! built on the way, the seven payloads, and the block definitions that
//! follow the top-level list.

use vstd::prelude::*;
use vstd::slice::slice_subrange;
use std::collections::HashMap;
use crate::binary64::Binary64;
use crate::error::{Fault, JwwError};
use crate::header::{header_of, parse_header};
use crate::model::{
    entity_views, Arc, Block, BlockDef, BlockDefView, Dimension, DimensionView, Entity,
    EntityBase, EntityView, JwwDocument, JwwDocumentView, Line, Point, Solid, Text, TextView,
};
use crate::reader::{
    agrees, agrees_view, bind, done, f64_at, fail, skip_at, take_at, text_at, u16_at, u32_at, u8_at,
    Reader, Step,
};
use crate::text::to_chars;

verus! {

broadcast use vstd::std_specs::hash::group_hash_axioms;

/// The head of an entity at `pos`. The pen width is stored from version
/// 351 on and is zero before.
pub open spec fn entity_base_at(data: Seq<u8>, pos: int, version: u32) -> Step<EntityBase> {
    bind(u32_at(data, pos), |group: u32, p1: int|
    bind(u8_at(data, p1), |pen_style: u8, p2: int|
    bind(u16_at(data, p2), |pen_color: u16, p3: int|
    bind(if version >= 351 { u16_at(data, p3) } else { done(0u16, p3) }, |pen_width: u16, p4: int|
    bind(u16_at(data, p4), |layer: u16, p5: int|
    bind(u16_at(data, p5), |layer_group: u16, p6: int|
    bind(u16_at(data, p6), |flag: u16, p7: int|
        done(EntityBase { group, pen_style, pen_color, pen_width, layer, layer_group, flag }, p7))))))))
}

/// A line at `pos`: head, start, end.
pub open spec fn line_at(data: Seq<u8>, pos: int, version: u32) -> Step<Line> {
    bind(entity_base_at(data, pos, version), |base: EntityBase, p0: int|
    bind(f64_at(data, p0), |start_x: Binary64, p1: int|
    bind(f64_at(data, p1), |start_y: Binary64, p2: int|
    bind(f64_at(data, p2), |end_x: Binary64, p3: int|
    bind(f64_at(data, p3), |end_y: Binary64, p4: int|
        done(Line { base, start_x, start_y, end_x, end_y }, p4))))))
}

/// An arc at `pos`: head, centre, radius, start angle, arc angle, tilt,
/// flatness, and a number that is non-zero for a closed curve.
pub open spec fn arc_at(data: Seq<u8>, pos: int, version: u32) -> Step<Arc> {
    bind(entity_base_at(data, pos, version), |base: EntityBase, p0: int|
    bind(f64_at(data, p0), |center_x: Binary64, p1: int|
    bind(f64_at(data, p1), |center_y: Binary64, p2: int|
    bind(f64_at(data, p2), |radius: Binary64, p3: int|
    bind(f64_at(data, p3), |start_angle: Binary64, p4: int|
    bind(f64_at(data, p4), |arc_angle: Binary64, p5: int|
    bind(f64_at(data, p5), |tilt_angle: Binary64, p6: int|
    bind(f64_at(data, p6), |flatness: Binary64, p7: int|
    bind(u32_at(data, p7), |full: u32, p8: int|
        done(
            Arc {
                base,
                center_x,
                center_y,
                radius,
                start_angle,
                arc_angle,
                tilt_angle,
                flatness,
                is_full_circle: full != 0,
            },
            p8,
        ))))))))))
}

/// What follows the place of a point with pen style 100: code, angle,
/// scale. Other points store nothing more and have zeros there.
pub open spec fn point_mark_at(data: Seq<u8>, pos: int, pen_style: u8) -> Step<
    (u32, Binary64, Binary64),
> {
    if pen_style == 100 {
        bind(u32_at(data, pos), |code: u32, p1: int|
        bind(f64_at(data, p1), |angle: Binary64, p2: int|
        bind(f64_at(data, p2), |scale: Binary64, p3: int|
            done((code, angle, scale), p3))))
    } else {
        done((0u32, Binary64 { bits: 0 }, Binary64 { bits: 0 }), pos)
    }
}

/// A point at `pos`: head, place, a number that is non-zero for a
/// temporary point, and the mark.
pub open spec fn point_at(data: Seq<u8>, pos: int, version: u32) -> Step<Point> {
    bind(entity_base_at(data, pos, version), |base: EntityBase, p0: int|
    bind(f64_at(data, p0), |x: Binary64, p1: int|
    bind(f64_at(data, p1), |y: Binary64, p2: int|
    bind(u32_at(data, p2), |temporary: u32, p3: int|
    bind(point_mark_at(data, p3, base.pen_style), |mark: (u32, Binary64, Binary64), p4: int|
        done(
            Point {
                base,
                x,
                y,
                is_temporary: temporary != 0,
                code: mark.0,
                angle: mark.1,
                scale: mark.2,
            },
            p4,
        ))))))
}

/// A text at `pos`: head, start, end, type, sizes, spacing, angle, font
/// name, content.
pub open spec fn text_entity_at(data: Seq<u8>, pos: int, version: u32) -> Step<TextView> {
    bind(entity_base_at(data, pos, version), |base: EntityBase, p0: int|
    bind(f64_at(data, p0), |start_x: Binary64, p1: int|
    bind(f64_at(data, p1), |start_y: Binary64, p2: int|
    bind(f64_at(data, p2), |end_x: Binary64, p3: int|
    bind(f64_at(data, p3), |end_y: Binary64, p4: int|
    bind(u32_at(data, p4), |text_type: u32, p5: int|
    bind(f64_at(data, p5), |size_x: Binary64, p6: int|
    bind(f64_at(data, p6), |size_y: Binary64, p7: int|
    bind(f64_at(data, p7), |spacing: Binary64, p8: int|
    bind(f64_at(data, p8), |angle: Binary64, p9: int|
    bind(text_at(data, p9), |font_name: Seq<char>, p10: int|
    bind(text_at(data, p10), |content: Seq<char>, p11: int|
        done(
            TextView {
                base,
                start_x,
                start_y,
                end_x,
                end_y,
                text_type,
                size_x,
                size_y,
                spacing,
                angle,
                font_name,
                content,
            },
            p11,
        )))))))))))))
}

/// The colour that a solid with pen colour 10 stores behind its corners.
pub open spec fn solid_color_at(data: Seq<u8>, pos: int, pen_color: u16) -> Step<Option<u32>> {
    if pen_color == 10 {
        bind(u32_at(data, pos), |color: u32, p1: int| done(Some(color), p1))
    } else {
        done(None::<u32>, pos)
    }
}

/// A solid at `pos`: head, then the corners in the order first, fourth,
/// second, third, then the colour.
pub open spec fn solid_at(data: Seq<u8>, pos: int, version: u32) -> Step<Solid> {
    bind(entity_base_at(data, pos, version), |base: EntityBase, p0: int|
    bind(f64_at(data, p0), |point1_x: Binary64, p1: int|
    bind(f64_at(data, p1), |point1_y: Binary64, p2: int|
    bind(f64_at(data, p2), |point4_x: Binary64, p3: int|
    bind(f64_at(data, p3), |point4_y: Binary64, p4: int|
    bind(f64_at(data, p4), |point2_x: Binary64, p5: int|
    bind(f64_at(data, p5), |point2_y: Binary64, p6: int|
    bind(f64_at(data, p6), |point3_x: Binary64, p7: int|
    bind(f64_at(data, p7), |point3_y: Binary64, p8: int|
    bind(solid_color_at(data, p8, base.pen_color), |color: Option<u32>, p9: int|
        done(
            Solid {
                base,
                point1_x,
                point1_y,
                point2_x,
                point2_y,
                point3_x,
                point3_y,
                point4_x,
                point4_y,
                color,
            },
            p9,
        )))))))))))
}

/// A block reference at `pos`: head, reference point, scales, rotation,
/// number of the definition.
pub open spec fn block_at(data: Seq<u8>, pos: int, version: u32) -> Step<Block> {
    bind(entity_base_at(data, pos, version), |base: EntityBase, p0: int|
    bind(f64_at(data, p0), |ref_x: Binary64, p1: int|
    bind(f64_at(data, p1), |ref_y: Binary64, p2: int|
    bind(f64_at(data, p2), |scale_x: Binary64, p3: int|
    bind(f64_at(data, p3), |scale_y: Binary64, p4: int|
    bind(f64_at(data, p4), |rotation: Binary64, p5: int|
    bind(u32_at(data, p5), |def_number: u32, p6: int|
        done(Block { base, ref_x, ref_y, scale_x, scale_y, rotation, def_number }, p6))))))))
}

/// What a dimension stores behind its text from version 420 on: a mode,
/// two auxiliary lines and four auxiliary points.
pub open spec fn dimension_tail_at(data: Seq<u8>, pos: int, version: u32) -> Step<
    (Option<u16>, Seq<Line>, Seq<Point>),
> {
    if version >= 420 {
        bind(u16_at(data, pos), |mode: u16, p1: int|
        bind(line_at(data, p1, version), |l0: Line, p2: int|
        bind(line_at(data, p2, version), |l1: Line, p3: int|
        bind(point_at(data, p3, version), |q0: Point, p4: int|
        bind(point_at(data, p4, version), |q1: Point, p5: int|
        bind(point_at(data, p5, version), |q2: Point, p6: int|
        bind(point_at(data, p6, version), |q3: Point, p7: int|
            done((Some(mode), seq![l0, l1], seq![q0, q1, q2, q3]), p7))))))))
    } else {
        done((None::<u16>, Seq::<Line>::empty(), Seq::<Point>::empty()), pos)
    }
}

/// A dimension at `pos`: head, line, text, tail.
pub open spec fn dimension_at(data: Seq<u8>, pos: int, version: u32) -> Step<DimensionView> {
    bind(entity_base_at(data, pos, version), |base: EntityBase, p0: int|
    bind(line_at(data, p0, version), |line: Line, p1: int|
    bind(text_entity_at(data, p1, version), |text: TextView, p2: int|
    bind(dimension_tail_at(data, p2, version), |tail: (Option<u16>, Seq<Line>, Seq<Point>), p3: int|
        done(
            DimensionView {
                base,
                line,
                text,
                sxf_mode: tail.0,
                aux_lines: tail.1,
                aux_points: tail.2,
            },
            p3,
        )))))
}

/// The seven classes of entity.
#[derive(Debug, Clone, Copy, PartialEq, Eq, Structural)]
pub enum EntityClass {
    Line,
    Arc,
    Point,
    Text,
    Solid,
    Block,
    Dimension,
}

/// Whether the bytes are the code points of the word, one byte each.
pub open spec fn spells(name: Seq<u8>, word: Seq<char>) -> bool {
    &&& name.len() == word.len()
    &&& forall|i: int| 0 <= i < name.len() ==> name[i] as u32 == word[i] as u32
}

/// The class that a class name stands for.
pub open spec fn class_of(name: Seq<u8>) -> Option<EntityClass> {
    if spells(name, "CDataSen"@) {
        Some(EntityClass::Line)
    } else if spells(name, "CDataEnko"@) {
        Some(EntityClass::Arc)
    } else if spells(name, "CDataTen"@) {
        Some(EntityClass::Point)
    } else if spells(name, "CDataMoji"@) {
        Some(EntityClass::Text)
    } else if spells(name, "CDataSolid"@) {
        Some(EntityClass::Solid)
    } else if spells(name, "CDataBlock"@) {
        Some(EntityClass::Block)
    } else if spells(name, "CDataSunpou"@) {
        Some(EntityClass::Dimension)
    } else {
        None
    }
}

/// The payload of a record of the given class, as an entity.
pub open spec fn payload_at(data: Seq<u8>, pos: int, version: u32, class: EntityClass) -> Step<
    EntityView,
> {
    match class {
        EntityClass::Line => bind(line_at(data, pos, version), |v: Line, p: int|
            done(EntityView::Line(v), p)),
        EntityClass::Arc => bind(arc_at(data, pos, version), |v: Arc, p: int|
            done(EntityView::Arc(v), p)),
        EntityClass::Point => bind(point_at(data, pos, version), |v: Point, p: int|
            done(EntityView::Point(v), p)),
        EntityClass::Text => bind(text_entity_at(data, pos, version), |v: TextView, p: int|
            done(EntityView::Text(v), p)),
        EntityClass::Solid => bind(solid_at(data, pos, version), |v: Solid, p: int|
            done(EntityView::Solid(v), p)),
        EntityClass::Block => bind(block_at(data, pos, version), |v: Block, p: int|
            done(EntityView::Block(v), p)),
        EntityClass::Dimension => bind(dimension_at(data, pos, version), |v: DimensionView, p: int|
            done(EntityView::Dimension(v), p)),
    }
}

/// What one record leaves behind: the entity, if it holds one, and the
/// class dictionary and the next free id as they stand after it.
pub struct Record {
    pub entity: Option<EntityView>,
    pub dict: Map<u32, Seq<u8>>,
    pub next_pid: int,
}

/// The text that `String::from_utf8_lossy` makes of a byte string.
pub uninterp spec fn lossy_utf8_text(bytes: Seq<u8>) -> Seq<char>;

/// The record whose class name is known: its payload, and the id counter
/// moved on by one. A name that is none of the seven classes fails.
pub open spec fn classed_at(
    data: Seq<u8>,
    pos: int,
    version: u32,
    name: Seq<u8>,
    dict: Map<u32, Seq<u8>>,
    next_pid: int,
) -> Step<Record> {
    match class_of(name) {
        None => fail(Fault::UnknownEntityClass(lossy_utf8_text(name)), pos),
        Some(class) => bind(payload_at(data, pos, version, class), |e: EntityView, p: int|
            done(Record { entity: Some(e), dict, next_pid: next_pid + 1 }, p)),
    }
}

/// A class registration at `pos`: schema, length of the name, name.
pub open spec fn class_name_at(data: Seq<u8>, pos: int) -> Step<Seq<u8>> {
    bind(u16_at(data, pos), |schema: u16, p1: int|
    bind(u16_at(data, p1), |len: u16, p2: int|
        take_at(data, p2, len as int)))
}

/// One record at `pos`.
///
/// Class id `0xFFFF` registers the class name that follows under the next
/// free id and then holds a payload of that class; `0x8000` holds nothing
/// and leaves the counter alone; any other id, taken without its top bit,
/// must be in the dictionary. Every record with a payload moves the
/// counter on by one, a registering one by two in all.
pub open spec fn record_at(
    data: Seq<u8>,
    pos: int,
    version: u32,
    dict: Map<u32, Seq<u8>>,
    next_pid: int,
) -> Step<Record> {
    bind(u16_at(data, pos), |class_id: u16, p1: int|
        if class_id == 0xFFFF {
            bind(class_name_at(data, p1), |name: Seq<u8>, p2: int|
                classed_at(data, p2, version, name, dict.insert(next_pid as u32, name), next_pid + 1))
        } else if class_id == 0x8000 {
            done(Record { entity: None, dict, next_pid }, p1)
        } else {
            let pid = (class_id % 0x8000) as u32;
            if dict.contains_key(pid) {
                classed_at(data, p1, version, dict[pid], dict, next_pid)
            } else {
                fail(Fault::UnknownClassPid(pid), p1)
            }
        })
}

/// `first` followed by what `rest` goes on to read.
pub open spec fn entities_then(first: Seq<EntityView>, rest: Step<Seq<EntityView>>) -> Step<
    Seq<EntityView>,
> {
    match rest.value {
        Ok(t) => Step { value: Ok(first + t), pos: rest.pos },
        Err(f) => Step { value: Err(f), pos: rest.pos },
    }
}

/// The entity of a record as a row of none or one.
pub open spec fn held(entity: Option<EntityView>) -> Seq<EntityView> {
    match entity {
        Some(e) => seq![e],
        None => Seq::empty(),
    }
}

/// `n` records in a row, from `pos`: the entities they hold.
pub open spec fn records_at(
    data: Seq<u8>,
    pos: int,
    version: u32,
    dict: Map<u32, Seq<u8>>,
    next_pid: int,
    n: nat,
) -> Step<Seq<EntityView>>
    decreases n,
{
    if n == 0 {
        done(Seq::empty(), pos)
    } else {
        let r = record_at(data, pos, version, dict, next_pid);
        match r.value {
            Err(f) => fail(f, r.pos),
            Ok(rec) => entities_then(
                held(rec.entity),
                records_at(data, r.pos, version, rec.dict, rec.next_pid, (n - 1) as nat),
            ),
        }
    }
}

/// An entity list at `pos`: a 16-bit count, then that many records, read
/// with a dictionary that starts empty and a counter that starts at 1.
pub open spec fn entity_list_at(data: Seq<u8>, pos: int, version: u32) -> Step<Seq<EntityView>> {
    let c = u16_at(data, pos);
    match c.value {
        Err(f) => fail(f, c.pos),
        Ok(count) => records_at(data, c.pos, version, Map::empty(), 1, count as nat),
    }
}

fn parse_entity_base(reader: &mut Reader<'_>, version: u32) -> (r: Result<EntityBase, JwwError>)
    ensures
        final(reader).bytes() == old(reader).bytes(),
        agrees(
            r,
            final(reader).position(),
            entity_base_at(old(reader).bytes(), old(reader).position(), version),
        ),
{
    let group = reader.read_u32()?;
    let pen_style = reader.read_u8()?;
    let pen_color = reader.read_u16()?;
    let pen_width = if version >= 351 {
        reader.read_u16()?
    } else {
        0
    };
    let layer = reader.read_u16()?;
    let layer_group = reader.read_u16()?;
    let flag = reader.read_u16()?;
    Ok(EntityBase { group, pen_style, pen_color, pen_width, layer, layer_group, flag })
}

fn parse_line(reader: &mut Reader<'_>, version: u32) -> (r: Result<Line, JwwError>)
    ensures
        final(reader).bytes() == old(reader).bytes(),
        agrees(r, final(reader).position(), line_at(old(reader).bytes(), old(reader).position(), version)),
{
    let base = parse_entity_base(reader, version)?;
    let start_x = reader.read_f64()?;
    let start_y = reader.read_f64()?;
    let end_x = reader.read_f64()?;
    let end_y = reader.read_f64()?;
    Ok(Line { base, start_x, start_y, end_x, end_y })
}

fn parse_arc(reader: &mut Reader<'_>, version: u32) -> (r: Result<Arc, JwwError>)
    ensures
        final(reader).bytes() == old(reader).bytes(),
        agrees(r, final(reader).position(), arc_at(old(reader).bytes(), old(reader).position(), version)),
{
    let base = parse_entity_base(reader, version)?;
    let center_x = reader.read_f64()?;
    let center_y = reader.read_f64()?;
    let radius = reader.read_f64()?;
    let start_angle = reader.read_f64()?;
    let arc_angle = reader.read_f64()?;
    let tilt_angle = reader.read_f64()?;
    let flatness = reader.read_f64()?;
    let full = reader.read_u32()?;
    Ok(
        Arc {
            base,
            center_x,
            center_y,
            radius,
            start_angle,
            arc_angle,
            tilt_angle,
            flatness,
            is_full_circle: full != 0,
        },
    )
}

fn parse_point_mark(reader: &mut Reader<'_>, pen_style: u8) -> (r: Result<
    (u32, Binary64, Binary64),
    JwwError,
>)
    ensures
        final(reader).bytes() == old(reader).bytes(),
        agrees(
            r,
            final(reader).position(),
            point_mark_at(old(reader).bytes(), old(reader).position(), pen_style),
        ),
{
    if pen_style == 100 {
        let code = reader.read_u32()?;
        let angle = reader.read_f64()?;
        let scale = reader.read_f64()?;
        Ok((code, angle, scale))
    } else {
        Ok((0, Binary64 { bits: 0 }, Binary64 { bits: 0 }))
    }
}

fn parse_point(reader: &mut Reader<'_>, version: u32) -> (r: Result<Point, JwwError>)
    ensures
        final(reader).bytes() == old(reader).bytes(),
        agrees(r, final(reader).position(), point_at(old(reader).bytes(), old(reader).position(), version)),
{
    let base = parse_entity_base(reader, version)?;
    let x = reader.read_f64()?;
    let y = reader.read_f64()?;
    let temporary = reader.read_u32()?;
    let mark = parse_point_mark(reader, base.pen_style)?;
    Ok(
        Point {
            base,
            x,
            y,
            is_temporary: temporary != 0,
            code: mark.0,
            angle: mark.1,
            scale: mark.2,
        },
    )
}

fn parse_text(reader: &mut Reader<'_>, version: u32) -> (r: Result<Text, JwwError>)
    ensures
        final(reader).bytes() == old(reader).bytes(),
        agrees_view(
            r,
            final(reader).position(),
            text_entity_at(old(reader).bytes(), old(reader).position(), version),
        ),
{
    let base = parse_entity_base(reader, version)?;
    let start_x = reader.read_f64()?;
    let start_y = reader.read_f64()?;
    let end_x = reader.read_f64()?;
    let end_y = reader.read_f64()?;
    let text_type = reader.read_u32()?;
    let size_x = reader.read_f64()?;
    let size_y = reader.read_f64()?;
    let spacing = reader.read_f64()?;
    let angle = reader.read_f64()?;
    let font_name = reader.read_cstring()?;
    let content = reader.read_cstring()?;
    Ok(
        Text {
            base,
            start_x,
            start_y,
            end_x,
            end_y,
            text_type,
            size_x,
            size_y,
            spacing,
            angle,
            font_name,
            content,
        },
    )
}

fn parse_solid_color(reader: &mut Reader<'_>, pen_color: u16) -> (r: Result<Option<u32>, JwwError>)
    ensures
        final(reader).bytes() == old(reader).bytes(),
        agrees(
            r,
            final(reader).position(),
            solid_color_at(old(reader).bytes(), old(reader).position(), pen_color),
        ),
{
    if pen_color == 10 {
        let color = reader.read_u32()?;
        Ok(Some(color))
    } else {
        Ok(None)
    }
}

fn parse_solid(reader: &mut Reader<'_>, version: u32) -> (r: Result<Solid, JwwError>)
    ensures
        final(reader).bytes() == old(reader).bytes(),
        agrees(r, final(reader).position(), solid_at(old(reader).bytes(), old(reader).position(), version)),
{
    let base = parse_entity_base(reader, version)?;
    let point1_x = reader.read_f64()?;
    let point1_y = reader.read_f64()?;
    let point4_x = reader.read_f64()?;
    let point4_y = reader.read_f64()?;
    let point2_x = reader.read_f64()?;
    let point2_y = reader.read_f64()?;
    let point3_x = reader.read_f64()?;
    let point3_y = reader.read_f64()?;
    let color = parse_solid_color(reader, base.pen_color)?;
    Ok(
        Solid {
            base,
            point1_x,
            point1_y,
            point2_x,
            point2_y,
            point3_x,
            point3_y,
            point4_x,
            point4_y,
            color,
        },
    )
}

fn parse_block(reader: &mut Reader<'_>, version: u32) -> (r: Result<Block, JwwError>)
    ensures
        final(reader).bytes() == old(reader).bytes(),
        agrees(r, final(reader).position(), block_at(old(reader).bytes(), old(reader).position(), version)),
{
    let base = parse_entity_base(reader, version)?;
    let ref_x = reader.read_f64()?;
    let ref_y = reader.read_f64()?;
    let scale_x = reader.read_f64()?;
    let scale_y = reader.read_f64()?;
    let rotation = reader.read_f64()?;
    let def_number = reader.read_u32()?;
    Ok(Block { base, ref_x, ref_y, scale_x, scale_y, rotation, def_number })
}

/// The tail of a dimension as it is held in memory.
struct DimensionTail {
    sxf_mode: Option<u16>,
    aux_lines: Vec<Line>,
    aux_points: Vec<Point>,
}

fn parse_dimension_tail(reader: &mut Reader<'_>, version: u32) -> (r: Result<
    DimensionTail,
    JwwError,
>)
    ensures
        final(reader).bytes() == old(reader).bytes(),
        final(reader).position() == dimension_tail_at(
            old(reader).bytes(),
            old(reader).position(),
            version,
        ).pos,
        match r {
            Ok(t) => dimension_tail_at(old(reader).bytes(), old(reader).position(), version).value
                == Ok::<(Option<u16>, Seq<Line>, Seq<Point>), Fault>(
                (t.sxf_mode, t.aux_lines@, t.aux_points@),
            ),
            Err(e) => dimension_tail_at(old(reader).bytes(), old(reader).position(), version).value
                == Err::<(Option<u16>, Seq<Line>, Seq<Point>), Fault>(e@),
        },
{
    let mut aux_lines: Vec<Line> = Vec::new();
    let mut aux_points: Vec<Point> = Vec::new();
    if version >= 420 {
        let mode = reader.read_u16()?;
        let l0 = parse_line(reader, version)?;
        let l1 = parse_line(reader, version)?;
        let q0 = parse_point(reader, version)?;
        let q1 = parse_point(reader, version)?;
        let q2 = parse_point(reader, version)?;
        let q3 = parse_point(reader, version)?;
        aux_lines.push(l0);
        aux_lines.push(l1);
        aux_points.push(q0);
        aux_points.push(q1);
        aux_points.push(q2);
        aux_points.push(q3);
        assert(aux_lines@ =~= seq![l0, l1]);
        assert(aux_points@ =~= seq![q0, q1, q2, q3]);
        Ok(DimensionTail { sxf_mode: Some(mode), aux_lines, aux_points })
    } else {
        assert(aux_lines@ =~= Seq::<Line>::empty());
        assert(aux_points@ =~= Seq::<Point>::empty());
        Ok(DimensionTail { sxf_mode: None, aux_lines, aux_points })
    }
}

fn parse_dimension(reader: &mut Reader<'_>, version: u32) -> (r: Result<Dimension, JwwError>)
    ensures
        final(reader).bytes() == old(reader).bytes(),
        agrees_view(
            r,
            final(reader).position(),
            dimension_at(old(reader).bytes(), old(reader).position(), version),
        ),
{
    let base = parse_entity_base(reader, version)?;
    let line = parse_line(reader, version)?;
    let text = parse_text(reader, version)?;
    let tail = parse_dimension_tail(reader, version)?;
    Ok(
        Dimension {
            base,
            line,
            text,
            sxf_mode: tail.sxf_mode,
            aux_lines: tail.aux_lines,
            aux_points: tail.aux_points,
        },
    )
}

/// Whether the bytes are the code points of the word.
fn name_is(name: &[u8], word: &str) -> (r: bool)
    ensures
        r == spells(name@, word@),
{
    let chars = to_chars(word);
    if name.len() != chars.len() {
        return false;
    }
    let mut i: usize = 0;
    while i < name.len()
        invariant
            i <= name.len() == chars.len(),
            chars@ == word@,
            forall|k: int| 0 <= k < i ==> name@[k] as u32 == chars@[k] as u32,
        decreases name.len() - i,
    {
        if name[i] as u32 != chars[i] as u32 {
            assert(name@[i as int] as u32 != word@[i as int] as u32);
            return false;
        }
        i += 1;
    }
    true
}

/// The class that a class name stands for.
fn class_named(name: &[u8]) -> (r: Option<EntityClass>)
    ensures
        r == class_of(name@),
{
    if name_is(name, "CDataSen") {
        Some(EntityClass::Line)
    } else if name_is(name, "CDataEnko") {
        Some(EntityClass::Arc)
    } else if name_is(name, "CDataTen") {
        Some(EntityClass::Point)
    } else if name_is(name, "CDataMoji") {
        Some(EntityClass::Text)
    } else if name_is(name, "CDataSolid") {
        Some(EntityClass::Solid)
    } else if name_is(name, "CDataBlock") {
        Some(EntityClass::Block)
    } else if name_is(name, "CDataSunpou") {
        Some(EntityClass::Dimension)
    } else {
        None
    }
}

/// Reads the payload of a record of the given class.
fn parse_payload(reader: &mut Reader<'_>, version: u32, class: EntityClass) -> (r: Result<
    Entity,
    JwwError,
>)
    ensures
        final(reader).bytes() == old(reader).bytes(),
        agrees_view(
            r,
            final(reader).position(),
            payload_at(old(reader).bytes(), old(reader).position(), version, class),
        ),
{
    match class {
        EntityClass::Line => Ok(Entity::Line(parse_line(reader, version)?)),
        EntityClass::Arc => Ok(Entity::Arc(parse_arc(reader, version)?)),
        EntityClass::Point => Ok(Entity::Point(parse_point(reader, version)?)),
        EntityClass::Text => Ok(Entity::Text(parse_text(reader, version)?)),
        EntityClass::Solid => Ok(Entity::Solid(parse_solid(reader, version)?)),
        EntityClass::Block => Ok(Entity::Block(parse_block(reader, version)?)),
        EntityClass::Dimension => Ok(Entity::Dimension(parse_dimension(reader, version)?)),
    }
}

/// Decodes bytes as UTF-8 with `String::from_utf8_lossy`.
///
/// Trusted: the text returned is the one the standard library produces for
/// these bytes, which depends on nothing else.
#[verifier::external_body]
fn lossy_utf8(bytes: &[u8]) -> (r: String)
    ensures
        r@ == lossy_utf8_text(bytes@),
{
    String::from_utf8_lossy(bytes).into_owned()
}

/// What the dictionary holds, as contracts speak of it.
pub open spec fn dict_view(m: Map<u32, Vec<u8>>) -> Map<u32, Seq<u8>> {
    Map::new(|k: u32| m.contains_key(k), |k: u32| m[k]@)
}

/// Whether a parsed entity is the one a record holds.
pub open spec fn holds(e: Option<Entity>, v: Option<EntityView>) -> bool {
    match (e, v) {
        (Some(x), Some(y)) => x@ == y,
        (None, None) => true,
        _ => false,
    }
}

/// Reads the payload of a record whose class name is known.
fn parse_classed(reader: &mut Reader<'_>, version: u32, name: &[u8]) -> (r: Result<
    Entity,
    JwwError,
>)
    ensures
        final(reader).bytes() == old(reader).bytes(),
        ({
            let s = classed_at(
                old(reader).bytes(),
                old(reader).position(),
                version,
                name@,
                Map::empty(),
                0,
            );
            &&& final(reader).position() == s.pos
            &&& match r {
                Ok(e) => s.value is Ok && s.value->Ok_0.entity == Some(e@),
                Err(e) => s.value == Err::<Record, Fault>(e@),
            }
        }),
{
    match class_named(name) {
        None => Err(JwwError::UnknownEntityClass(lossy_utf8(name))),
        Some(class) => parse_payload(reader, version, class),
    }
}

/// Reads one record, keeping the class dictionary and the id counter.
fn parse_entity_with_pid_tracking(
    reader: &mut Reader<'_>,
    version: u32,
    pid_to_class_name: &mut HashMap<u32, Vec<u8>>,
    next_pid: u32,
) -> (r: Result<(Option<Entity>, u32), JwwError>)
    requires
        next_pid < u32::MAX - 1,
    ensures
        final(reader).bytes() == old(reader).bytes(),
        ({
            let s = record_at(
                old(reader).bytes(),
                old(reader).position(),
                version,
                dict_view(old(pid_to_class_name)@),
                next_pid as int,
            );
            &&& final(reader).position() == s.pos
            &&& match r {
                Ok(pair) => {
                    &&& s.value is Ok
                    &&& holds(pair.0, s.value->Ok_0.entity)
                    &&& s.value->Ok_0.dict == dict_view(final(pid_to_class_name)@)
                    &&& s.value->Ok_0.next_pid == pair.1
                },
                Err(e) => s.value == Err::<Record, Fault>(e@),
            }
        }),
{
    let ghost data = reader.bytes();
    let ghost dict = dict_view(pid_to_class_name@);
    let class_id = reader.read_u16()?;
    if class_id == 0xFFFF {
        let _schema = reader.read_u16()?;
        let name_len = reader.read_u16()?;
        let name = reader.read_bytes(name_len as usize)?;
        let ghost p2 = reader.position();
        let ghost name_view = name@;
        let parsed = parse_classed(reader, version, name.as_slice());
        pid_to_class_name.insert(next_pid, name);
        proof {
            assert(dict_view(pid_to_class_name@) =~= dict.insert(next_pid, name_view));
        }
        let entity = parsed?;
        Ok((Some(entity), next_pid + 2))
    } else if class_id == 0x8000 {
        Ok((None, next_pid))
    } else {
        let class_pid = (class_id % 0x8000) as u32;
        match pid_to_class_name.get(&class_pid) {
            None => Err(JwwError::UnknownClassPid(class_pid)),
            Some(name) => {
                assert(dict[class_pid] == name@);
                let entity = parse_classed(reader, version, name.as_slice())?;
                Ok((Some(entity), next_pid + 1))
            },
        }
    }
}

/// Reads an entity list: a count and that many records.
pub fn parse_entity_list(reader: &mut Reader<'_>, version: u32) -> (r: Result<Vec<Entity>, JwwError>)
    ensures
        final(reader).bytes() == old(reader).bytes(),
        ({
            let s = entity_list_at(old(reader).bytes(), old(reader).position(), version);
            &&& final(reader).position() == s.pos
            &&& match r {
                Ok(v) => s.value == Ok::<Seq<EntityView>, Fault>(entity_views(v@)),
                Err(e) => s.value == Err::<Seq<EntityView>, Fault>(e@),
            }
        }),
{
    let ghost data = reader.bytes();
    let count = reader.read_u16()?;
    let ghost start = reader.position();
    let mut entities: Vec<Entity> = Vec::new();
    let mut pid_to_class_name: HashMap<u32, Vec<u8>> = HashMap::new();
    let mut next_pid: u32 = 1;
    let mut i: u16 = 0;
    proof {
        assert(dict_view(pid_to_class_name@) =~= Map::<u32, Seq<u8>>::empty());
        let rest = records_at(data, start, version, Map::empty(), 1, count as nat);
        if rest.value is Ok {
            assert(entity_views(entities@) + rest.value->Ok_0 =~= rest.value->Ok_0);
        }
    }
    while i < count
        invariant
            i <= count,
            next_pid <= 1 + 2 * i,
            reader.bytes() == data,
            data == old(reader).bytes(),
            entity_list_at(data, old(reader).position(), version) == records_at(
                data,
                start,
                version,
                Map::empty(),
                1,
                count as nat,
            ),
            records_at(data, start, version, Map::empty(), 1, count as nat) == entities_then(
                entity_views(entities@),
                records_at(
                    data,
                    reader.position(),
                    version,
                    dict_view(pid_to_class_name@),
                    next_pid as int,
                    (count - i) as nat,
                ),
            ),
        decreases count - i,
    {
        let ghost before = entity_views(entities@);
        let pair = parse_entity_with_pid_tracking(reader, version, &mut pid_to_class_name, next_pid)?;
        next_pid = pair.1;
        let ghost added = held(
            match &pair.0 {
                Some(e) => Some(e@),
                None => None,
            },
        );
        match pair.0 {
            Some(entity) => {
                entities.push(entity);
            },
            None => {},
        }
        proof {
            assert(entity_views(entities@) =~= before + added);
            let rest = records_at(
                data,
                reader.position(),
                version,
                dict_view(pid_to_class_name@),
                next_pid as int,
                (count - i - 1) as nat,
            );
            if rest.value is Ok {
                assert((before + added) + rest.value->Ok_0 =~= before + (added
                    + rest.value->Ok_0));
            }
        }
        i += 1;
    }
    proof {
        assert(entity_views(entities@) + Seq::<EntityView>::empty() =~= entity_views(entities@));
    }
    Ok(entities)
}

/// Whether an anchor stands at `i`: the bytes `FF FF`, the low half of
/// the version, and a name length from 8 to 32, all within the data, with
/// a name that fits the data and begins with `CData`.
pub open spec fn is_anchor(data: Seq<u8>, i: int, version: u32) -> bool {
    let name_len = data[i + 4] as int + 0x100 * (data[i + 5] as int);
    &&& 0 <= i
    &&& i + 6 <= data.len()
    &&& data[i] == 0xFF
    &&& data[i + 1] == 0xFF
    &&& data[i + 2] as int == version as int % 0x100
    &&& data[i + 3] as int == version as int / 0x100 % 0x100
    &&& 8 <= name_len <= 32
    &&& i + 6 + name_len <= data.len()
    &&& data[i + 6] == 0x43
    &&& data[i + 7] == 0x44
    &&& data[i + 8] == 0x61
    &&& data[i + 9] == 0x74
    &&& data[i + 10] == 0x61
}

/// The first anchor at or after `from`.
pub open spec fn first_anchor(data: Seq<u8>, version: u32, from: int) -> Option<int>
    decreases data.len() - from,
{
    if from + 6 > data.len() {
        None
    } else if is_anchor(data, from, version) {
        Some(from)
    } else {
        first_anchor(data, version, from + 1)
    }
}

/// Where the entity list begins: two bytes before the first anchor at or
/// after byte 100, where the count of the list stands.
pub open spec fn entity_list_offset(data: Seq<u8>, version: u32) -> Option<int> {
    match first_anchor(data, version, 100) {
        Some(i) => Some(i - 2),
        None => None,
    }
}

/// Finds where the entity list begins: two bytes before the smallest
/// place at or after byte 100 at which an anchor stands. There is none
/// exactly when no anchor stands at or after byte 100.
pub fn find_entity_list_offset(data: &[u8], version: u32) -> (r: Option<usize>)
    ensures
        match r {
            Some(k) => {
                &&& entity_list_offset(data@, version) == Some(k as int)
                &&& 100 <= k + 2
                &&& is_anchor(data@, k + 2, version)
                &&& forall|j: int| 100 <= j < k + 2 ==> !is_anchor(data@, j, version)
            },
            None => {
                &&& entity_list_offset(data@, version) is None
                &&& forall|j: int| 100 <= j ==> !is_anchor(data@, j, version)
            },
        },
{
    if data.len() < 106 {
        return None;
    }
    let schema_low: u8 = (version % 0x100) as u8;
    let schema_high: u8 = (version / 0x100 % 0x100) as u8;
    let mut i: usize = 100;
    while i <= data.len() - 6
        invariant
            100 <= i,
            data@.len() >= 106,
            schema_low as int == version as int % 0x100,
            schema_high as int == version as int / 0x100 % 0x100,
            first_anchor(data@, version, 100) == first_anchor(data@, version, i as int),
            forall|j: int| 100 <= j < i ==> !is_anchor(data@, j, version),
        decreases data.len() - i,
    {
        if data[i] == 0xFF && data[i + 1] == 0xFF && data[i + 2] == schema_low && data[i + 3]
            == schema_high {
            let name_len: usize = (data[i + 4] as usize) + 0x100 * (data[i + 5] as usize);
            if 8 <= name_len && name_len <= 32 && name_len <= data.len() - i - 6 {
                if data[i + 6] == 0x43 && data[i + 7] == 0x44 && data[i + 8] == 0x61 && data[i
                    + 9] == 0x74 && data[i + 10] == 0x61 {
                    return Some(i - 2);
                }
            }
        }
        i += 1;
    }
    None
}

/// A block definition at `pos`, or nothing where the record is the
/// `0x8000` marker.
///
/// After the class id, and the class registration if the id is `0xFFFF`,
/// come the head, the number, a number that is non-zero for a referenced
/// definition, four bytes of time stamp, the name, and an entity list. A
/// list that fails leaves the definition without entities and the cursor
/// where the failure left it.
pub open spec fn block_def_at(data: Seq<u8>, pos: int, version: u32) -> Step<Option<BlockDefView>> {
    bind(u16_at(data, pos), |class_id: u16, p1: int|
        if class_id == 0x8000 {
            done(None::<BlockDefView>, p1)
        } else {
            bind(
                if class_id == 0xFFFF {
                    bind(class_name_at(data, p1), |name: Seq<u8>, p: int| done((), p))
                } else {
                    done((), p1)
                },
                |registered: (), p2: int|
            bind(entity_base_at(data, p2, version), |base: EntityBase, p3: int|
            bind(u32_at(data, p3), |number: u32, p4: int|
            bind(u32_at(data, p4), |referenced: u32, p5: int|
            bind(skip_at(data, p5, 4), |stamp: (), p6: int|
            bind(text_at(data, p6), |name: Seq<char>, p7: int|
                {
                    let list = entity_list_at(data, p7, version);
                    done(
                        Some(
                            BlockDefView {
                                base,
                                number,
                                is_referenced: referenced != 0,
                                name,
                                entities: match list.value {
                                    Ok(es) => es,
                                    Err(_) => Seq::empty(),
                                },
                            },
                        ),
                        list.pos,
                    )
                }))))))
        })
}

/// The definition of a record as a row of none or one.
pub open spec fn defined(def: Option<BlockDefView>) -> Seq<BlockDefView> {
    match def {
        Some(d) => seq![d],
        None => Seq::empty(),
    }
}

/// Up to `n` block definitions in a row, from `pos`: the row ends at the
/// first record that fails.
pub open spec fn block_defs_from(data: Seq<u8>, pos: int, version: u32, n: nat) -> Seq<
    BlockDefView,
>
    decreases n,
{
    if n == 0 {
        Seq::empty()
    } else {
        let d = block_def_at(data, pos, version);
        match d.value {
            Err(_) => Seq::empty(),
            Ok(def) => defined(def) + block_defs_from(data, d.pos, version, (n - 1) as nat),
        }
    }
}

/// The block definitions that a byte string holds: a 32-bit count and the
/// definitions. There are none where the count cannot be read or is above
/// 10,000.
pub open spec fn block_def_list_of(data: Seq<u8>, version: u32) -> Seq<BlockDefView> {
    let c = u32_at(data, 0);
    match c.value {
        Err(_) => Seq::empty(),
        Ok(count) => if count > 10_000 {
            Seq::empty()
        } else {
            block_defs_from(data, c.pos, version, count as nat)
        },
    }
}

/// Skips a class registration.
fn skip_class_name(reader: &mut Reader<'_>) -> (r: Result<(), JwwError>)
    ensures
        final(reader).bytes() == old(reader).bytes(),
        final(reader).position() == class_name_at(old(reader).bytes(), old(reader).position()).pos,
        match r {
            Ok(_) => class_name_at(old(reader).bytes(), old(reader).position()).value is Ok,
            Err(e) => class_name_at(old(reader).bytes(), old(reader).position()).value == Err::<
                Seq<u8>,
                Fault,
            >(e@),
        },
{
    let _schema = reader.read_u16()?;
    let name_len = reader.read_u16()?;
    let _name = reader.read_bytes(name_len as usize)?;
    Ok(())
}

/// Reads one block definition.
fn parse_block_def(reader: &mut Reader<'_>, version: u32) -> (r: Result<Option<BlockDef>, JwwError>)
    ensures
        final(reader).bytes() == old(reader).bytes(),
        ({
            let s = block_def_at(old(reader).bytes(), old(reader).position(), version);
            &&& final(reader).position() == s.pos
            &&& match r {
                Ok(Some(d)) => s.value == Ok::<Option<BlockDefView>, Fault>(Some(d@)),
                Ok(None) => s.value == Ok::<Option<BlockDefView>, Fault>(None),
                Err(e) => s.value == Err::<Option<BlockDefView>, Fault>(e@),
            }
        }),
{
    let class_id = reader.read_u16()?;
    if class_id == 0x8000 {
        return Ok(None);
    }
    if class_id == 0xFFFF {
        skip_class_name(reader)?;
    }
    let base = parse_entity_base(reader, version)?;
    let number = reader.read_u32()?;
    let referenced = reader.read_u32()?;
    reader.skip(4)?;
    let name = reader.read_cstring()?;
    let entities = match parse_entity_list(reader, version) {
        Ok(v) => v,
        Err(_) => {
            let none: Vec<Entity> = Vec::new();
            assert(entity_views(none@) =~= Seq::<EntityView>::empty());
            none
        },
    };
    Ok(Some(BlockDef { base, number, is_referenced: referenced != 0, name, entities }))
}

/// Reads the block definitions that follow the top-level entity list.
pub fn parse_block_def_list(data: &[u8], version: u32) -> (r: Vec<BlockDef>)
    ensures
        crate::model::block_def_views(r@) == block_def_list_of(data@, version),
{
    let mut block_defs: Vec<BlockDef> = Vec::new();
    assert(crate::model::block_def_views(block_defs@) =~= Seq::<BlockDefView>::empty());
    let mut reader = Reader::new(data);
    let count = match reader.read_u32() {
        Ok(v) => v,
        Err(_) => {
            return block_defs;
        },
    };
    if count > 10_000 {
        return block_defs;
    }
    let ghost start = reader.position();
    let mut i: u32 = 0;
    proof {
        let rest = block_defs_from(data@, start, version, count as nat);
        assert(crate::model::block_def_views(block_defs@) + rest =~= rest);
    }
    while i < count
        invariant
            i <= count,
            reader.bytes() == data@,
            block_def_list_of(data@, version) == crate::model::block_def_views(block_defs@)
                + block_defs_from(data@, reader.position(), version, (count - i) as nat),
        decreases count - i,
    {
        let ghost before = crate::model::block_def_views(block_defs@);
        let ghost here = reader.position();
        match parse_block_def(&mut reader, version) {
            Err(_) => {
                assert(before + Seq::<BlockDefView>::empty() =~= before);
                return block_defs;
            },
            Ok(def) => {
                let ghost added = defined(
                    match &def {
                        Some(d) => Some(d@),
                        None => None,
                    },
                );
                match def {
                    Some(block_def) => {
                        block_defs.push(block_def);
                    },
                    None => {},
                }
                proof {
                    assert(crate::model::block_def_views(block_defs@) =~= before + added);
                    let rest = block_defs_from(
                        data@,
                        reader.position(),
                        version,
                        (count - i - 1) as nat,
                    );
                    assert((before + added) + rest =~= before + (added + rest));
                }
            },
        }
        i += 1;
    }
    proof {
        let now = crate::model::block_def_views(block_defs@);
        assert(now + Seq::<BlockDefView>::empty() =~= now);
    }
    block_defs
}

/// The drawing that a byte string holds, or why it holds none.
///
/// The header is read from the start. The entity list is read from where
/// [`entity_list_offset`] finds it, and its failures are failures of the
/// whole. The block definitions are read from the bytes that follow the
/// entity list, if there are any.
pub open spec fn document_of(data: Seq<u8>) -> Result<JwwDocumentView, Fault> {
    match header_of(data) {
        Err(f) => Err(f),
        Ok(header) => match entity_list_offset(data, header.version) {
            None => Err(Fault::EntityListNotFound),
            Some(offset) => {
                let list = entity_list_at(
                    data.subrange(offset, data.len() as int),
                    0,
                    header.version,
                );
                match list.value {
                    Err(f) => Err(f),
                    Ok(entities) => Ok(
                        JwwDocumentView {
                            header,
                            entities,
                            block_defs: if offset + list.pos < data.len() {
                                block_def_list_of(
                                    data.subrange(offset + list.pos, data.len() as int),
                                    header.version,
                                )
                            } else {
                                Seq::empty()
                            },
                        },
                    ),
                }
            },
        },
    }
}

/// Reads a drawing.
///
/// The result is a function of the bytes alone: the document or the
/// failure that [`document_of`] gives for them.
pub fn parse_document(data: &[u8]) -> (r: Result<JwwDocument, JwwError>)
    ensures
        match r {
            Ok(d) => document_of(data@) == Ok::<JwwDocumentView, Fault>(d@),
            Err(e) => document_of(data@) == Err::<JwwDocumentView, Fault>(e@),
        },
{
    let header = parse_header(data)?;
    let entity_list_offset = match find_entity_list_offset(data, header.version) {
        Some(offset) => offset,
        None => {
            return Err(JwwError::EntityListNotFound);
        },
    };
    let body = slice_subrange(data, entity_list_offset, data.len());
    let mut reader = Reader::new(body);
    let entities = parse_entity_list(&mut reader, header.version)?;
    let consumed = reader.bytes_read();
    let block_data_start = entity_list_offset + consumed;
    let block_defs = if block_data_start < data.len() {
        parse_block_def_list(slice_subrange(data, block_data_start, data.len()), header.version)
    } else {
        let none: Vec<BlockDef> = Vec::new();
        assert(crate::model::block_def_views(none@) =~= Seq::<BlockDefView>::empty());
        none
    };
    Ok(JwwDocument { header, entities, block_defs })
}

/// Reading is deterministic: whatever two readings of the same bytes
/// return, as [`parse_document`] states it, is the same document or the
/// same failure.
pub proof fn parse_document_is_deterministic(
    data: Seq<u8>,
    first: Result<JwwDocumentView, Fault>,
    second: Result<JwwDocumentView, Fault>,
)
    requires
        first == document_of(data),
        second == document_of(data),
    ensures
        first == second,
{
}

} // verus!
