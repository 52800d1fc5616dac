//! The drawing in memory: entities, block definitions, and the points by
//! which an entity is placed.

use vstd::prelude::*;
use crate::binary64::Binary64;
use crate::header::{JwwHeader, JwwHeaderView};

verus! {

/// What every entity starts with: group, pen and layer.
#[derive(Debug, Clone, Copy, PartialEq, Eq, Structural)]
pub struct EntityBase {
    pub group: u32,
    pub pen_style: u8,
    pub pen_color: u16,
    pub pen_width: u16,
    pub layer: u16,
    pub layer_group: u16,
    pub flag: u16,
}

impl Default for EntityBase {
    fn default() -> (r: EntityBase)
        ensures
            r == (EntityBase {
                group: 0,
                pen_style: 0,
                pen_color: 0,
                pen_width: 0,
                layer: 0,
                layer_group: 0,
                flag: 0,
            }),
    {
        EntityBase {
            group: 0,
            pen_style: 0,
            pen_color: 0,
            pen_width: 0,
            layer: 0,
            layer_group: 0,
            flag: 0,
        }
    }
}

/// A point of the plane.
#[derive(Debug, Clone, Copy, PartialEq, Eq, Structural)]
pub struct Coord2D {
    pub x: Binary64,
    pub y: Binary64,
}

impl Coord2D {
    pub fn new(x: Binary64, y: Binary64) -> (r: Coord2D)
        ensures
            r == (Coord2D { x, y }),
    {
        Coord2D { x, y }
    }
}

impl Default for Coord2D {
    fn default() -> (r: Coord2D)
        ensures
            r == (Coord2D { x: Binary64 { bits: 0 }, y: Binary64 { bits: 0 } }),
    {
        Coord2D { x: Binary64 { bits: 0 }, y: Binary64 { bits: 0 } }
    }
}

#[derive(Debug, Clone, Copy, PartialEq)]
pub struct Line {
    pub base: EntityBase,
    pub start_x: Binary64,
    pub start_y: Binary64,
    pub end_x: Binary64,
    pub end_y: Binary64,
}

/// A circle, an ellipse, or an arc of either. Angles are in radians.
#[derive(Debug, Clone, Copy, PartialEq)]
pub struct Arc {
    pub base: EntityBase,
    pub center_x: Binary64,
    pub center_y: Binary64,
    pub radius: Binary64,
    pub start_angle: Binary64,
    pub arc_angle: Binary64,
    pub tilt_angle: Binary64,
    pub flatness: Binary64,
    pub is_full_circle: bool,
}

#[derive(Debug, Clone, Copy, PartialEq)]
pub struct Point {
    pub base: EntityBase,
    pub x: Binary64,
    pub y: Binary64,
    pub is_temporary: bool,
    pub code: u32,
    pub angle: Binary64,
    pub scale: Binary64,
}

/// A text. Its angle is in degrees.
#[derive(Debug, Clone, PartialEq)]
pub struct Text {
    pub base: EntityBase,
    pub start_x: Binary64,
    pub start_y: Binary64,
    pub end_x: Binary64,
    pub end_y: Binary64,
    pub text_type: u32,
    pub size_x: Binary64,
    pub size_y: Binary64,
    pub spacing: Binary64,
    pub angle: Binary64,
    pub font_name: String,
    pub content: String,
}

#[derive(Debug, Clone, Copy, PartialEq)]
pub struct Solid {
    pub base: EntityBase,
    pub point1_x: Binary64,
    pub point1_y: Binary64,
    pub point2_x: Binary64,
    pub point2_y: Binary64,
    pub point3_x: Binary64,
    pub point3_y: Binary64,
    pub point4_x: Binary64,
    pub point4_y: Binary64,
    pub color: Option<u32>,
}

/// A placed instance of a block definition. Its rotation is in radians.
#[derive(Debug, Clone, Copy, PartialEq)]
pub struct Block {
    pub base: EntityBase,
    pub ref_x: Binary64,
    pub ref_y: Binary64,
    pub scale_x: Binary64,
    pub scale_y: Binary64,
    pub rotation: Binary64,
    pub def_number: u32,
}

#[derive(Debug, Clone, PartialEq)]
pub struct Dimension {
    pub base: EntityBase,
    pub line: Line,
    pub text: Text,
    pub sxf_mode: Option<u16>,
    pub aux_lines: Vec<Line>,
    pub aux_points: Vec<Point>,
}

#[derive(Debug, Clone, PartialEq)]
pub enum Entity {
    Line(Line),
    Arc(Arc),
    Point(Point),
    Text(Text),
    Solid(Solid),
    Block(Block),
    Dimension(Dimension),
}

#[derive(Debug, Clone, PartialEq)]
pub struct BlockDef {
    pub base: EntityBase,
    pub number: u32,
    pub is_referenced: bool,
    pub name: String,
    pub entities: Vec<Entity>,
}

#[derive(Debug, Clone, PartialEq)]
pub struct JwwDocument {
    pub header: JwwHeader,
    pub entities: Vec<Entity>,
    pub block_defs: Vec<BlockDef>,
}

pub struct TextView {
    pub base: EntityBase,
    pub start_x: Binary64,
    pub start_y: Binary64,
    pub end_x: Binary64,
    pub end_y: Binary64,
    pub text_type: u32,
    pub size_x: Binary64,
    pub size_y: Binary64,
    pub spacing: Binary64,
    pub angle: Binary64,
    pub font_name: Seq<char>,
    pub content: Seq<char>,
}

pub struct DimensionView {
    pub base: EntityBase,
    pub line: Line,
    pub text: TextView,
    pub sxf_mode: Option<u16>,
    pub aux_lines: Seq<Line>,
    pub aux_points: Seq<Point>,
}

pub enum EntityView {
    Line(Line),
    Arc(Arc),
    Point(Point),
    Text(TextView),
    Solid(Solid),
    Block(Block),
    Dimension(DimensionView),
}

pub struct BlockDefView {
    pub base: EntityBase,
    pub number: u32,
    pub is_referenced: bool,
    pub name: Seq<char>,
    pub entities: Seq<EntityView>,
}

pub struct JwwDocumentView {
    pub header: JwwHeaderView,
    pub entities: Seq<EntityView>,
    pub block_defs: Seq<BlockDefView>,
}

impl View for Text {
    type V = TextView;

    open spec fn view(&self) -> TextView {
        TextView {
            base: self.base,
            start_x: self.start_x,
            start_y: self.start_y,
            end_x: self.end_x,
            end_y: self.end_y,
            text_type: self.text_type,
            size_x: self.size_x,
            size_y: self.size_y,
            spacing: self.spacing,
            angle: self.angle,
            font_name: self.font_name@,
            content: self.content@,
        }
    }
}

impl View for Dimension {
    type V = DimensionView;

    open spec fn view(&self) -> DimensionView {
        DimensionView {
            base: self.base,
            line: self.line,
            text: self.text@,
            sxf_mode: self.sxf_mode,
            aux_lines: self.aux_lines@,
            aux_points: self.aux_points@,
        }
    }
}

impl View for Entity {
    type V = EntityView;

    open spec fn view(&self) -> EntityView {
        match self {
            Entity::Line(v) => EntityView::Line(*v),
            Entity::Arc(v) => EntityView::Arc(*v),
            Entity::Point(v) => EntityView::Point(*v),
            Entity::Text(v) => EntityView::Text(v@),
            Entity::Solid(v) => EntityView::Solid(*v),
            Entity::Block(v) => EntityView::Block(*v),
            Entity::Dimension(v) => EntityView::Dimension(v@),
        }
    }
}

/// The views of a row of entities.
pub open spec fn entity_views(entities: Seq<Entity>) -> Seq<EntityView> {
    Seq::new(entities.len(), |i: int| entities[i]@)
}

impl View for BlockDef {
    type V = BlockDefView;

    open spec fn view(&self) -> BlockDefView {
        BlockDefView {
            base: self.base,
            number: self.number,
            is_referenced: self.is_referenced,
            name: self.name@,
            entities: entity_views(self.entities@),
        }
    }
}

/// The views of a row of block definitions.
pub open spec fn block_def_views(defs: Seq<BlockDef>) -> Seq<BlockDefView> {
    Seq::new(defs.len(), |i: int| defs[i]@)
}

impl View for JwwDocument {
    type V = JwwDocumentView;

    open spec fn view(&self) -> JwwDocumentView {
        JwwDocumentView {
            header: self.header@,
            entities: entity_views(self.entities@),
            block_defs: block_def_views(self.block_defs@),
        }
    }
}

impl EntityView {
    /// The common head of the entity.
    pub open spec fn base(self) -> EntityBase {
        match self {
            EntityView::Line(v) => v.base,
            EntityView::Arc(v) => v.base,
            EntityView::Point(v) => v.base,
            EntityView::Text(v) => v.base,
            EntityView::Solid(v) => v.base,
            EntityView::Block(v) => v.base,
            EntityView::Dimension(v) => v.base,
        }
    }

    /// The name of the kind of entity; an arc that closes is a circle.
    pub open spec fn kind_name(self) -> Seq<char> {
        match self {
            EntityView::Line(_) => "LINE"@,
            EntityView::Arc(v) => if v.is_full_circle {
                "CIRCLE"@
            } else {
                "ARC"@
            },
            EntityView::Point(_) => "POINT"@,
            EntityView::Text(_) => "TEXT"@,
            EntityView::Solid(_) => "SOLID"@,
            EntityView::Block(_) => "BLOCK"@,
            EntityView::Dimension(_) => "DIMENSION"@,
        }
    }

    /// The points that the entity's payload names, in storage order. For a
    /// dimension: the ends of its line, the ends of its text, the ends of
    /// each auxiliary line, then the auxiliary points.
    pub open spec fn coordinates(self) -> Seq<Coord2D> {
        match self {
            EntityView::Line(v) => seq![
                Coord2D { x: v.start_x, y: v.start_y },
                Coord2D { x: v.end_x, y: v.end_y },
            ],
            EntityView::Arc(v) => seq![Coord2D { x: v.center_x, y: v.center_y }],
            EntityView::Point(v) => seq![Coord2D { x: v.x, y: v.y }],
            EntityView::Text(v) => seq![
                Coord2D { x: v.start_x, y: v.start_y },
                Coord2D { x: v.end_x, y: v.end_y },
            ],
            EntityView::Solid(v) => seq![
                Coord2D { x: v.point1_x, y: v.point1_y },
                Coord2D { x: v.point2_x, y: v.point2_y },
                Coord2D { x: v.point3_x, y: v.point3_y },
                Coord2D { x: v.point4_x, y: v.point4_y },
            ],
            EntityView::Block(v) => seq![Coord2D { x: v.ref_x, y: v.ref_y }],
            EntityView::Dimension(v) => seq![
                Coord2D { x: v.line.start_x, y: v.line.start_y },
                Coord2D { x: v.line.end_x, y: v.line.end_y },
                Coord2D { x: v.text.start_x, y: v.text.start_y },
                Coord2D { x: v.text.end_x, y: v.text.end_y },
            ] + line_ends(v.aux_lines) + point_places(v.aux_points),
        }
    }
}

/// The two ends of each line, line after line.
pub open spec fn line_ends(lines: Seq<Line>) -> Seq<Coord2D> {
    Seq::new(
        2 * lines.len(),
        |i: int|
            if i % 2 == 0 {
                Coord2D { x: lines[i / 2].start_x, y: lines[i / 2].start_y }
            } else {
                Coord2D { x: lines[i / 2].end_x, y: lines[i / 2].end_y }
            },
    )
}

/// Where each point lies.
pub open spec fn point_places(points: Seq<Point>) -> Seq<Coord2D> {
    Seq::new(points.len(), |i: int| Coord2D { x: points[i].x, y: points[i].y })
}

/// The coordinates of every entity of a row, entity after entity.
pub open spec fn all_coordinates(entities: Seq<EntityView>) -> Seq<Coord2D>
    decreases entities.len(),
{
    if entities.len() == 0 {
        Seq::empty()
    } else {
        all_coordinates(entities.drop_last()) + entities.last().coordinates()
    }
}

/// The least of a non-empty row of numbers, taken from left to right with
/// [`Binary64::min_spec`].
pub open spec fn least(values: Seq<Binary64>) -> Binary64
    decreases values.len(),
{
    if values.len() <= 1 {
        values[0]
    } else {
        least(values.drop_last()).min_spec(values.last())
    }
}

/// The greatest of a non-empty row of numbers, taken from left to right
/// with [`Binary64::max_spec`].
pub open spec fn greatest(values: Seq<Binary64>) -> Binary64
    decreases values.len(),
{
    if values.len() <= 1 {
        values[0]
    } else {
        greatest(values.drop_last()).max_spec(values.last())
    }
}

pub open spec fn xs(points: Seq<Coord2D>) -> Seq<Binary64> {
    Seq::new(points.len(), |i: int| points[i].x)
}

pub open spec fn ys(points: Seq<Coord2D>) -> Seq<Binary64> {
    Seq::new(points.len(), |i: int| points[i].y)
}

/// The corners of the smallest axis-parallel box around the points: the
/// least and the greatest of each coordinate. There is none around no
/// points.
pub open spec fn bbox_of(points: Seq<Coord2D>) -> Option<(Coord2D, Coord2D)> {
    if points.len() == 0 {
        None
    } else {
        Some(
            (
                Coord2D { x: least(xs(points)), y: least(ys(points)) },
                Coord2D { x: greatest(xs(points)), y: greatest(ys(points)) },
            ),
        )
    }
}

pub fn coordinates_bbox(points: &[Coord2D]) -> (r: Option<(Coord2D, Coord2D)>)
    ensures
        r == bbox_of(points@),
{
    if points.len() == 0 {
        return None;
    }
    let first = points[0];
    let mut min_x = first.x;
    let mut min_y = first.y;
    let mut max_x = first.x;
    let mut max_y = first.y;
    let mut i: usize = 1;
    while i < points.len()
        invariant
            1 <= i <= points.len(),
            min_x == least(xs(points@.take(i as int))),
            min_y == least(ys(points@.take(i as int))),
            max_x == greatest(xs(points@.take(i as int))),
            max_y == greatest(ys(points@.take(i as int))),
        decreases points.len() - i,
    {
        let p = points[i];
        proof {
            let now = points@.take(i + 1);
            let was = points@.take(i as int);
            assert(xs(now).drop_last() =~= xs(was));
            assert(ys(now).drop_last() =~= ys(was));
            assert(xs(now).last() == p.x);
            assert(ys(now).last() == p.y);
        }
        min_x = min_x.min(p.x);
        min_y = min_y.min(p.y);
        max_x = max_x.max(p.x);
        max_y = max_y.max(p.y);
        i += 1;
    }
    assert(points@.take(points@.len() as int) =~= points@);
    Some((Coord2D::new(min_x, min_y), Coord2D::new(max_x, max_y)))
}

impl Entity {
    pub fn entity_type(&self) -> (r: &'static str)
        ensures
            r@ == self@.kind_name(),
    {
        match self {
            Entity::Line(_) => "LINE",
            Entity::Arc(arc) => {
                if arc.is_full_circle {
                    "CIRCLE"
                } else {
                    "ARC"
                }
            },
            Entity::Point(_) => "POINT",
            Entity::Text(_) => "TEXT",
            Entity::Solid(_) => "SOLID",
            Entity::Block(_) => "BLOCK",
            Entity::Dimension(_) => "DIMENSION",
        }
    }

    pub fn base(&self) -> (r: &EntityBase)
        ensures
            *r == self@.base(),
    {
        match self {
            Entity::Line(v) => &v.base,
            Entity::Arc(v) => &v.base,
            Entity::Point(v) => &v.base,
            Entity::Text(v) => &v.base,
            Entity::Solid(v) => &v.base,
            Entity::Block(v) => &v.base,
            Entity::Dimension(v) => &v.base,
        }
    }

    pub fn common_coordinates(&self) -> (r: Vec<Coord2D>)
        ensures
            r@ == self@.coordinates(),
            r@.len() >= 1,
    {
        let mut points: Vec<Coord2D> = Vec::new();
        match self {
            Entity::Line(v) => {
                points.push(Coord2D::new(v.start_x, v.start_y));
                points.push(Coord2D::new(v.end_x, v.end_y));
            },
            Entity::Arc(v) => {
                points.push(Coord2D::new(v.center_x, v.center_y));
            },
            Entity::Point(v) => {
                points.push(Coord2D::new(v.x, v.y));
            },
            Entity::Text(v) => {
                points.push(Coord2D::new(v.start_x, v.start_y));
                points.push(Coord2D::new(v.end_x, v.end_y));
            },
            Entity::Solid(v) => {
                points.push(Coord2D::new(v.point1_x, v.point1_y));
                points.push(Coord2D::new(v.point2_x, v.point2_y));
                points.push(Coord2D::new(v.point3_x, v.point3_y));
                points.push(Coord2D::new(v.point4_x, v.point4_y));
            },
            Entity::Block(v) => {
                points.push(Coord2D::new(v.ref_x, v.ref_y));
            },
            Entity::Dimension(v) => {
                points.push(Coord2D::new(v.line.start_x, v.line.start_y));
                points.push(Coord2D::new(v.line.end_x, v.line.end_y));
                points.push(Coord2D::new(v.text.start_x, v.text.start_y));
                points.push(Coord2D::new(v.text.end_x, v.text.end_y));
                let ghost head = points@;
                let mut i: usize = 0;
                while i < v.aux_lines.len()
                    invariant
                        i <= v.aux_lines.len(),
                        points@ =~= head + line_ends(v.aux_lines@.take(i as int)),
                    decreases v.aux_lines.len() - i,
                {
                    let line = &v.aux_lines[i];
                    points.push(Coord2D::new(line.start_x, line.start_y));
                    points.push(Coord2D::new(line.end_x, line.end_y));
                    i += 1;
                }
                assert(v.aux_lines@.take(v.aux_lines@.len() as int) =~= v.aux_lines@);
                let ghost mid = points@;
                let mut j: usize = 0;
                while j < v.aux_points.len()
                    invariant
                        j <= v.aux_points.len(),
                        points@ =~= mid + point_places(v.aux_points@.take(j as int)),
                    decreases v.aux_points.len() - j,
                {
                    let point = &v.aux_points[j];
                    points.push(Coord2D::new(point.x, point.y));
                    j += 1;
                }
                assert(v.aux_points@.take(v.aux_points@.len() as int) =~= v.aux_points@);
            },
        }
        assert(points@ =~= self@.coordinates());
        points
    }

    pub fn first_coordinate(&self) -> (r: Option<Coord2D>)
        ensures
            r == Some(self@.coordinates()[0]),
    {
        let points = self.common_coordinates();
        Some(points[0])
    }

    pub fn common_coordinate_bbox(&self) -> (r: Option<(Coord2D, Coord2D)>)
        ensures
            r == bbox_of(self@.coordinates()),
            r is Some,
    {
        let points = self.common_coordinates();
        coordinates_bbox(points.as_slice())
    }
}

pub fn collect_entity_coordinates(entities: &[Entity]) -> (r: Vec<Coord2D>)
    ensures
        r@ == all_coordinates(entity_views(entities@)),
{
    let mut points: Vec<Coord2D> = Vec::new();
    let mut i: usize = 0;
    while i < entities.len()
        invariant
            i <= entities.len(),
            points@ == all_coordinates(entity_views(entities@.take(i as int))),
        decreases entities.len() - i,
    {
        let mut more = entities[i].common_coordinates();
        proof {
            let now = entity_views(entities@.take(i + 1));
            assert(now.drop_last() =~= entity_views(entities@.take(i as int)));
            assert(now.last() == entities@[i as int]@);
        }
        points.append(&mut more);
        i += 1;
    }
    assert(entities@.take(entities@.len() as int) =~= entities@);
    points
}

} // verus!
