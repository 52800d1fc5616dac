//! The drawing as DXF sees it, and the rules that turn a source entity
//! into DXF entities.

use vstd::prelude::*;
use std::collections::HashMap;
use crate::binary64::{
    is_cosine, is_product, is_quotient, is_sine, is_sum, Arithmetic, Binary64, HALF_PI_BITS,
    ONE_BITS, ONE_EIGHTY_BITS, PI_BITS, TWO_AND_HALF_BITS, TWO_PI_BITS, ZERO_BITS,
};
use crate::header::{default_layer_name, default_layer_name_text, JwwHeaderView};
use crate::model::{
    block_def_views, entity_views, Arc, Block, BlockDefView, Entity, EntityBase, EntityView,
    JwwDocument, Text, TextView,
};
use crate::text::{decimal_text, owned, push_decimal, trim, trim_text};

verus! {

broadcast use vstd::std_specs::hash::group_hash_axioms;

#[derive(Debug, Clone, PartialEq)]
pub struct DxfLayer {
    pub name: String,
    pub color: i32,
    pub line_type: String,
    pub frozen: bool,
    pub locked: bool,
}

#[derive(Debug, Clone, PartialEq)]
pub struct DxfLine {
    pub layer: String,
    pub color: i32,
    pub line_type: String,
    pub x1: Binary64,
    pub y1: Binary64,
    pub x2: Binary64,
    pub y2: Binary64,
}

#[derive(Debug, Clone, PartialEq)]
pub struct DxfCircle {
    pub layer: String,
    pub color: i32,
    pub line_type: String,
    pub center_x: Binary64,
    pub center_y: Binary64,
    pub radius: Binary64,
}

/// A circular arc. Angles are in degrees.
#[derive(Debug, Clone, PartialEq)]
pub struct DxfArc {
    pub layer: String,
    pub color: i32,
    pub line_type: String,
    pub center_x: Binary64,
    pub center_y: Binary64,
    pub radius: Binary64,
    pub start_angle: Binary64,
    pub end_angle: Binary64,
}

/// An ellipse or an arc of one. Parameters are in radians.
#[derive(Debug, Clone, PartialEq)]
pub struct DxfEllipse {
    pub layer: String,
    pub color: i32,
    pub line_type: String,
    pub center_x: Binary64,
    pub center_y: Binary64,
    pub major_axis_x: Binary64,
    pub major_axis_y: Binary64,
    pub minor_ratio: Binary64,
    pub start_param: Binary64,
    pub end_param: Binary64,
}

#[derive(Debug, Clone, PartialEq)]
pub struct DxfPoint {
    pub layer: String,
    pub color: i32,
    pub line_type: String,
    pub x: Binary64,
    pub y: Binary64,
}

/// A text. Its rotation is in degrees.
#[derive(Debug, Clone, PartialEq)]
pub struct DxfText {
    pub layer: String,
    pub color: i32,
    pub line_type: String,
    pub x: Binary64,
    pub y: Binary64,
    pub height: Binary64,
    pub rotation: Binary64,
    pub content: String,
    pub style: String,
}

#[derive(Debug, Clone, PartialEq)]
pub struct DxfSolid {
    pub layer: String,
    pub color: i32,
    pub line_type: String,
    pub x1: Binary64,
    pub y1: Binary64,
    pub x2: Binary64,
    pub y2: Binary64,
    pub x3: Binary64,
    pub y3: Binary64,
    pub x4: Binary64,
    pub y4: Binary64,
}

/// A placed block. Its rotation is in degrees.
#[derive(Debug, Clone, PartialEq)]
pub struct DxfInsert {
    pub layer: String,
    pub color: i32,
    pub line_type: String,
    pub block_name: String,
    pub x: Binary64,
    pub y: Binary64,
    pub scale_x: Binary64,
    pub scale_y: Binary64,
    pub rotation: Binary64,
}

#[derive(Debug, Clone, PartialEq)]
pub enum DxfEntity {
    Line(DxfLine),
    Circle(DxfCircle),
    Arc(DxfArc),
    Ellipse(DxfEllipse),
    Point(DxfPoint),
    Text(DxfText),
    Solid(DxfSolid),
    Insert(DxfInsert),
}

#[derive(Debug, Clone, PartialEq)]
pub struct DxfBlock {
    pub name: String,
    pub base_x: Binary64,
    pub base_y: Binary64,
    pub entities: Vec<DxfEntity>,
}

#[derive(Debug, Clone, PartialEq)]
pub struct DxfDocument {
    pub layers: Vec<DxfLayer>,
    pub entities: Vec<DxfEntity>,
    pub blocks: Vec<DxfBlock>,
    pub unsupported_entities: Vec<String>,
}

/// How to convert: whether block references are replaced by what they
/// stand for, and how deep such replacement may go.
#[derive(Debug, Clone, Copy, PartialEq, Eq)]
pub struct ConvertOptions {
    pub explode_inserts: bool,
    pub max_block_nesting: usize,
}

impl Default for ConvertOptions {
    fn default() -> (r: ConvertOptions)
        ensures
            r == (ConvertOptions { explode_inserts: false, max_block_nesting: 32 }),
    {
        ConvertOptions { explode_inserts: false, max_block_nesting: 32 }
    }
}

/// Layer, colour and line type: what every DXF entity carries.
pub struct Style {
    pub layer: Seq<char>,
    pub color: i32,
    pub line_type: Seq<char>,
}

/// The eight kinds of DXF entity.
#[derive(Debug, Clone, Copy, PartialEq, Eq, Structural)]
pub enum DxfKind {
    Line,
    Circle,
    Arc,
    Ellipse,
    Point,
    Text,
    Solid,
    Insert,
}

pub enum DxfEntityView {
    Line { style: Style, x1: Binary64, y1: Binary64, x2: Binary64, y2: Binary64 },
    Circle { style: Style, center_x: Binary64, center_y: Binary64, radius: Binary64 },
    Arc {
        style: Style,
        center_x: Binary64,
        center_y: Binary64,
        radius: Binary64,
        start_angle: Binary64,
        end_angle: Binary64,
    },
    Ellipse {
        style: Style,
        center_x: Binary64,
        center_y: Binary64,
        major_axis_x: Binary64,
        major_axis_y: Binary64,
        minor_ratio: Binary64,
        start_param: Binary64,
        end_param: Binary64,
    },
    Point { style: Style, x: Binary64, y: Binary64 },
    Text {
        style: Style,
        x: Binary64,
        y: Binary64,
        height: Binary64,
        rotation: Binary64,
        content: Seq<char>,
        text_style: Seq<char>,
    },
    Solid {
        style: Style,
        x1: Binary64,
        y1: Binary64,
        x2: Binary64,
        y2: Binary64,
        x3: Binary64,
        y3: Binary64,
        x4: Binary64,
        y4: Binary64,
    },
    Insert {
        style: Style,
        block_name: Seq<char>,
        x: Binary64,
        y: Binary64,
        scale_x: Binary64,
        scale_y: Binary64,
        rotation: Binary64,
    },
}

impl DxfEntityView {
    pub open spec fn kind(self) -> DxfKind {
        match self {
            DxfEntityView::Line { .. } => DxfKind::Line,
            DxfEntityView::Circle { .. } => DxfKind::Circle,
            DxfEntityView::Arc { .. } => DxfKind::Arc,
            DxfEntityView::Ellipse { .. } => DxfKind::Ellipse,
            DxfEntityView::Point { .. } => DxfKind::Point,
            DxfEntityView::Text { .. } => DxfKind::Text,
            DxfEntityView::Solid { .. } => DxfKind::Solid,
            DxfEntityView::Insert { .. } => DxfKind::Insert,
        }
    }

    pub open spec fn style(self) -> Style {
        match self {
            DxfEntityView::Line { style, .. } => style,
            DxfEntityView::Circle { style, .. } => style,
            DxfEntityView::Arc { style, .. } => style,
            DxfEntityView::Ellipse { style, .. } => style,
            DxfEntityView::Point { style, .. } => style,
            DxfEntityView::Text { style, .. } => style,
            DxfEntityView::Solid { style, .. } => style,
            DxfEntityView::Insert { style, .. } => style,
        }
    }
}

/// The name under which the output format knows a kind.
pub open spec fn kind_text(kind: DxfKind) -> Seq<char> {
    match kind {
        DxfKind::Line => "LINE"@,
        DxfKind::Circle => "CIRCLE"@,
        DxfKind::Arc => "ARC"@,
        DxfKind::Ellipse => "ELLIPSE"@,
        DxfKind::Point => "POINT"@,
        DxfKind::Text => "TEXT"@,
        DxfKind::Solid => "SOLID"@,
        DxfKind::Insert => "INSERT"@,
    }
}

pub open spec fn style_view(layer: String, color: i32, line_type: String) -> Style {
    Style { layer: layer@, color, line_type: line_type@ }
}

impl View for DxfEntity {
    type V = DxfEntityView;

    open spec fn view(&self) -> DxfEntityView {
        match self {
            DxfEntity::Line(v) => DxfEntityView::Line {
                style: style_view(v.layer, v.color, v.line_type),
                x1: v.x1,
                y1: v.y1,
                x2: v.x2,
                y2: v.y2,
            },
            DxfEntity::Circle(v) => DxfEntityView::Circle {
                style: style_view(v.layer, v.color, v.line_type),
                center_x: v.center_x,
                center_y: v.center_y,
                radius: v.radius,
            },
            DxfEntity::Arc(v) => DxfEntityView::Arc {
                style: style_view(v.layer, v.color, v.line_type),
                center_x: v.center_x,
                center_y: v.center_y,
                radius: v.radius,
                start_angle: v.start_angle,
                end_angle: v.end_angle,
            },
            DxfEntity::Ellipse(v) => DxfEntityView::Ellipse {
                style: style_view(v.layer, v.color, v.line_type),
                center_x: v.center_x,
                center_y: v.center_y,
                major_axis_x: v.major_axis_x,
                major_axis_y: v.major_axis_y,
                minor_ratio: v.minor_ratio,
                start_param: v.start_param,
                end_param: v.end_param,
            },
            DxfEntity::Point(v) => DxfEntityView::Point {
                style: style_view(v.layer, v.color, v.line_type),
                x: v.x,
                y: v.y,
            },
            DxfEntity::Text(v) => DxfEntityView::Text {
                style: style_view(v.layer, v.color, v.line_type),
                x: v.x,
                y: v.y,
                height: v.height,
                rotation: v.rotation,
                content: v.content@,
                text_style: v.style@,
            },
            DxfEntity::Solid(v) => DxfEntityView::Solid {
                style: style_view(v.layer, v.color, v.line_type),
                x1: v.x1,
                y1: v.y1,
                x2: v.x2,
                y2: v.y2,
                x3: v.x3,
                y3: v.y3,
                x4: v.x4,
                y4: v.y4,
            },
            DxfEntity::Insert(v) => DxfEntityView::Insert {
                style: style_view(v.layer, v.color, v.line_type),
                block_name: v.block_name@,
                x: v.x,
                y: v.y,
                scale_x: v.scale_x,
                scale_y: v.scale_y,
                rotation: v.rotation,
            },
        }
    }
}

/// The views of a row of DXF entities.
pub open spec fn dxf_views(entities: Seq<DxfEntity>) -> Seq<DxfEntityView> {
    Seq::new(entities.len(), |i: int| entities[i]@)
}

pub struct DxfLayerView {
    pub name: Seq<char>,
    pub color: i32,
    pub line_type: Seq<char>,
    pub frozen: bool,
    pub locked: bool,
}

impl View for DxfLayer {
    type V = DxfLayerView;

    open spec fn view(&self) -> DxfLayerView {
        DxfLayerView {
            name: self.name@,
            color: self.color,
            line_type: self.line_type@,
            frozen: self.frozen,
            locked: self.locked,
        }
    }
}

/// The views of a row of layers.
pub open spec fn layer_views(layers: Seq<DxfLayer>) -> Seq<DxfLayerView> {
    Seq::new(layers.len(), |i: int| layers[i]@)
}

pub struct DxfBlockView {
    pub name: Seq<char>,
    pub base_x: Binary64,
    pub base_y: Binary64,
    pub entities: Seq<DxfEntityView>,
}

impl View for DxfBlock {
    type V = DxfBlockView;

    open spec fn view(&self) -> DxfBlockView {
        DxfBlockView {
            name: self.name@,
            base_x: self.base_x,
            base_y: self.base_y,
            entities: dxf_views(self.entities@),
        }
    }
}

/// The views of a row of blocks.
pub open spec fn block_views(blocks: Seq<DxfBlock>) -> Seq<DxfBlockView> {
    Seq::new(blocks.len(), |i: int| blocks[i]@)
}

/// The views of a row of texts.
pub open spec fn text_views(texts: Seq<String>) -> Seq<Seq<char>> {
    Seq::new(texts.len(), |i: int| texts[i]@)
}

pub struct DxfDocumentView {
    pub layers: Seq<DxfLayerView>,
    pub entities: Seq<DxfEntityView>,
    pub blocks: Seq<DxfBlockView>,
    pub unsupported_entities: Seq<Seq<char>>,
}

impl View for DxfDocument {
    type V = DxfDocumentView;

    open spec fn view(&self) -> DxfDocumentView {
        DxfDocumentView {
            layers: layer_views(self.layers@),
            entities: dxf_views(self.entities@),
            blocks: block_views(self.blocks@),
            unsupported_entities: text_views(self.unsupported_entities@),
        }
    }
}

impl DxfEntity {
    pub fn kind(&self) -> (r: DxfKind)
        ensures
            r == self@.kind(),
    {
        match self {
            DxfEntity::Line(_) => DxfKind::Line,
            DxfEntity::Circle(_) => DxfKind::Circle,
            DxfEntity::Arc(_) => DxfKind::Arc,
            DxfEntity::Ellipse(_) => DxfKind::Ellipse,
            DxfEntity::Point(_) => DxfKind::Point,
            DxfEntity::Text(_) => DxfKind::Text,
            DxfEntity::Solid(_) => DxfKind::Solid,
            DxfEntity::Insert(_) => DxfKind::Insert,
        }
    }

    pub fn entity_type(&self) -> (r: &'static str)
        ensures
            r@ == kind_text(self@.kind()),
    {
        match self {
            DxfEntity::Line(_) => "LINE",
            DxfEntity::Circle(_) => "CIRCLE",
            DxfEntity::Arc(_) => "ARC",
            DxfEntity::Ellipse(_) => "ELLIPSE",
            DxfEntity::Point(_) => "POINT",
            DxfEntity::Text(_) => "TEXT",
            DxfEntity::Solid(_) => "SOLID",
            DxfEntity::Insert(_) => "INSERT",
        }
    }
}

/// The colour index for a pen colour: eight pens have a colour of their
/// own, the others take what is left of their number after division by
/// 255, and at least 1.
pub open spec fn color_of(pen_color: u16) -> i32 {
    if pen_color == 1 || pen_color == 8 {
        7
    } else if pen_color == 2 {
        5
    } else if pen_color == 3 {
        1
    } else if pen_color == 4 {
        6
    } else if pen_color == 5 {
        3
    } else if pen_color == 6 {
        4
    } else if pen_color == 7 {
        2
    } else if pen_color == 9 {
        8
    } else if pen_color % 255 < 1 {
        1
    } else {
        (pen_color % 255) as i32
    }
}

pub fn map_color(pen_color: u16) -> (r: i32)
    ensures
        r == color_of(pen_color),
        1 <= r <= 254,
{
    match pen_color {
        1 | 8 => 7,
        2 => 5,
        3 => 1,
        4 => 6,
        5 => 3,
        6 => 4,
        7 => 2,
        9 => 8,
        _ => {
            let m: i32 = (pen_color % 255) as i32;
            if m < 1 {
                1
            } else {
                m
            }
        },
    }
}

/// The line type for a pen style.
pub open spec fn line_type_of(pen_style: u8) -> Seq<char> {
    if pen_style == 0 {
        "CONTINUOUS"@
    } else if pen_style == 1 {
        "DASHED"@
    } else if pen_style == 2 {
        "DASHDOT"@
    } else if pen_style == 3 {
        "DOT"@
    } else if pen_style == 4 {
        "DASHED2"@
    } else {
        "BYLAYER"@
    }
}

pub fn map_line_type(pen_style: u8) -> (r: &'static str)
    ensures
        r@ == line_type_of(pen_style),
{
    match pen_style {
        0 => "CONTINUOUS",
        1 => "DASHED",
        2 => "DASHDOT",
        3 => "DOT",
        4 => "DASHED2",
        _ => "BYLAYER",
    }
}

/// The layer on which an entity of the given group and layer is drawn: the
/// layer's name in the header without the white space around it, or the
/// default name where that is empty or the numbers point outside the
/// table.
pub open spec fn layer_name_of(header: JwwHeaderView, layer_group: u16, layer: u16) -> Seq<char> {
    if layer_group < 16 && layer < 16 && trim_text(
        header.layer_groups[layer_group as int].layers[layer as int].name,
    ).len() > 0 {
        trim_text(header.layer_groups[layer_group as int].layers[layer as int].name)
    } else {
        default_layer_name(layer_group as nat, layer as nat)
    }
}

pub fn layer_name(doc: &JwwDocument, layer_group: u16, layer: u16) -> (r: String)
    ensures
        r@ == layer_name_of(doc@.header, layer_group, layer),
{
    if layer_group < 16 && layer < 16 {
        let group = &doc.header.layer_groups[layer_group as usize];
        let candidate = trim(group.layers[layer as usize].name.as_str());
        if !candidate.as_str().is_empty() {
            return candidate;
        }
    }
    default_layer_name_text(layer_group as u32, layer as u32)
}

/// The name of a block: its own, or `BLOCK_` and its number where it has
/// none.
pub open spec fn block_name_of(number: u32, raw: Seq<char>) -> Seq<char> {
    if raw.len() == 0 {
        "BLOCK_"@ + decimal_text(number as nat)
    } else {
        raw
    }
}

pub fn block_def_name(number: u32, raw: &str) -> (r: String)
    ensures
        r@ == block_name_of(number, raw@),
{
    if raw.is_empty() {
        let mut out = owned("BLOCK_");
        push_decimal(&mut out, number as u64);
        out
    } else {
        owned(raw)
    }
}

/// The names of the blocks by number; of two definitions with one number
/// the later one gives the name.
pub open spec fn block_names_of(defs: Seq<BlockDefView>) -> Map<u32, Seq<char>>
    decreases defs.len(),
{
    if defs.len() == 0 {
        Map::empty()
    } else {
        block_names_of(defs.drop_last()).insert(
            defs.last().number,
            block_name_of(defs.last().number, defs.last().name),
        )
    }
}

/// What a map of names holds, as contracts speak of it.
pub open spec fn names_view(m: Map<u32, String>) -> Map<u32, Seq<char>> {
    Map::new(|k: u32| m.contains_key(k), |k: u32| m[k]@)
}

pub fn block_name_map(doc: &JwwDocument) -> (r: HashMap<u32, String>)
    ensures
        names_view(r@) == block_names_of(doc@.block_defs),
{
    let mut map: HashMap<u32, String> = HashMap::new();
    let mut i: usize = 0;
    assert(names_view(map@) =~= Map::<u32, Seq<char>>::empty());
    while i < doc.block_defs.len()
        invariant
            i <= doc.block_defs.len(),
            names_view(map@) == block_names_of(block_def_views(doc.block_defs@.take(i as int))),
        decreases doc.block_defs.len() - i,
    {
        let ghost before = names_view(map@);
        let def = &doc.block_defs[i];
        let name = block_def_name(def.number, def.name.as_str());
        let ghost shown = name@;
        map.insert(def.number, name);
        proof {
            let now = block_def_views(doc.block_defs@.take(i + 1));
            let was = block_def_views(doc.block_defs@.take(i as int));
            assert(now.drop_last() =~= was);
            assert(now.last() == doc.block_defs@[i as int]@);
            assert(names_view(map@) =~= before.insert(def.number, shown));
        }
        i += 1;
    }
    assert(doc.block_defs@.take(doc.block_defs@.len() as int) =~= doc.block_defs@);
    map
}

/// The name under which a reference to definition `n` is inserted.
pub open spec fn insert_name(names: Map<u32, Seq<char>>, n: u32) -> Seq<char> {
    if names.contains_key(n) {
        names[n]
    } else {
        "BLOCK_"@ + decimal_text(n as nat)
    }
}

/// Layer `l` of group `g` as a DXF layer: named as in the header, or by
/// default where that name is empty; coloured by its place in the table;
/// frozen where its state is zero; locked where it is protected.
pub open spec fn layer_of(header: JwwHeaderView, g: int, l: int) -> DxfLayerView {
    let source = header.layer_groups[g].layers[l];
    DxfLayerView {
        name: if source.name.len() == 0 {
            default_layer_name(g as nat, l as nat)
        } else {
            source.name
        },
        color: ((g * 16 + l) % 255 + 1) as i32,
        line_type: "CONTINUOUS"@,
        frozen: source.state == 0,
        locked: source.protect != 0,
    }
}

/// All 256 layers, group after group.
pub open spec fn layers_of(header: JwwHeaderView) -> Seq<DxfLayerView> {
    Seq::new(256, |i: int| layer_of(header, i / 16, i % 16))
}

pub fn convert_layers(doc: &JwwDocument) -> (r: Vec<DxfLayer>)
    ensures
        layer_views(r@) == layers_of(doc@.header),
{
    let mut layers: Vec<DxfLayer> = Vec::new();
    let mut g: usize = 0;
    while g < 16
        invariant
            g <= 16,
            layers@.len() == g * 16,
            forall|i: int|
                0 <= i < layers@.len() ==> (#[trigger] layers@[i])@ == layer_of(
                    doc@.header,
                    i / 16,
                    i % 16,
                ),
        decreases 16 - g,
    {
        let mut l: usize = 0;
        while l < 16
            invariant
                g < 16,
                l <= 16,
                layers@.len() == g * 16 + l,
                forall|i: int|
                    0 <= i < layers@.len() ==> (#[trigger] layers@[i])@ == layer_of(
                        doc@.header,
                        i / 16,
                        i % 16,
                    ),
            decreases 16 - l,
        {
            let source = &doc.header.layer_groups[g].layers[l];
            let name = if source.name.as_str().is_empty() {
                default_layer_name_text(g as u32, l as u32)
            } else {
                source.name.clone()
            };
            let layer = DxfLayer {
                name,
                color: ((g * 16 + l) % 255 + 1) as i32,
                line_type: owned("CONTINUOUS"),
                frozen: source.state == 0,
                locked: source.protect != 0,
            };
            proof {
                let i = (g * 16 + l) as int;
                assert(i / 16 == g && i % 16 == l);
                assert(layer@ == layer_of(doc@.header, i / 16, i % 16));
            }
            layers.push(layer);
            l += 1;
        }
        g += 1;
    }
    assert(layer_views(layers@) =~= layers_of(doc@.header));
    layers
}

/// The style that an entity's head gives to what is drawn for it.
pub open spec fn style_of(header: JwwHeaderView, base: EntityBase) -> Style {
    Style {
        layer: layer_name_of(header, base.layer_group, base.layer),
        color: color_of(base.pen_color),
        line_type: line_type_of(base.pen_style),
    }
}

pub open spec fn b64(bits: u64) -> Binary64 {
    Binary64 { bits }
}

/// The DXF text for a source text: placed at its start, as high as its
/// vertical size, or 2.5 where that size is not above zero (or no number),
/// turned by its angle, in the standard text style.
pub open spec fn text_of(style: Style, text: TextView) -> DxfEntityView {
    DxfEntityView::Text {
        style,
        x: text.start_x,
        y: text.start_y,
        height: if b64(ZERO_BITS).lt_spec(text.size_y) {
            text.size_y
        } else {
            b64(TWO_AND_HALF_BITS)
        },
        rotation: text.angle,
        content: text.content,
        text_style: "STANDARD"@,
    }
}

pub fn convert_text(text: &Text, layer: String, color: i32, line_type: String) -> (r: DxfText)
    ensures
        DxfEntity::Text(r)@ == text_of(style_view(layer, color, line_type), text@),
{
    DxfText {
        layer,
        color,
        line_type,
        x: text.start_x,
        y: text.start_y,
        height: if (Binary64 { bits: ZERO_BITS }).lt(text.size_y) {
            text.size_y
        } else {
            Binary64 { bits: TWO_AND_HALF_BITS }
        },
        rotation: text.angle,
        content: text.content.clone(),
        style: owned("STANDARD"),
    }
}

/// Whether an arc is drawn as a circle: it closes and is not flattened.
pub open spec fn is_circle(arc: Arc) -> bool {
    arc.is_full_circle && arc.flatness.ieee_eq_spec(b64(ONE_BITS))
}

/// Whether an arc is drawn as an ellipse: its flatness is not 1.
pub open spec fn is_ellipse(arc: Arc) -> bool {
    !is_circle(arc) && !arc.flatness.ieee_eq_spec(b64(ONE_BITS))
}

/// The ellipse that a flattened arc lies on: its major radius, the ratio
/// of its minor to its major radius, and the angle of its major axis.
#[derive(Debug, Clone, Copy, PartialEq)]
pub struct EllipseShape {
    pub major_radius: Binary64,
    pub minor_ratio: Binary64,
    pub tilt: Binary64,
}

/// Whether `shape` is the ellipse of a flattened arc as `ops` computes
/// it. Where the flatness is not above 1, it is the arc's radius, flatness
/// and tilt. Where it is, the ratio must come down to 1 or less: the
/// major radius is the radius times the flatness, the ratio is 1 by the
/// flatness, and the tilt is a quarter turn more.
pub open spec fn is_ellipse_shape<A: Arithmetic>(ops: &A, arc: Arc, shape: EllipseShape) -> bool {
    if b64(ONE_BITS).lt_spec(arc.flatness) {
        &&& is_product(ops, arc.radius, arc.flatness, shape.major_radius)
        &&& is_quotient(ops, b64(ONE_BITS), arc.flatness, shape.minor_ratio)
        &&& is_sum(ops, arc.tilt_angle, b64(HALF_PI_BITS), shape.tilt)
    } else {
        shape == (EllipseShape {
            major_radius: arc.radius,
            minor_ratio: arc.flatness,
            tilt: arc.tilt_angle,
        })
    }
}

/// Whether `(x, y)` is what `ops` gives for the direction of the given
/// length at the given angle: the length times the cosine, and the length
/// times the sine.
pub open spec fn is_axis<A: Arithmetic>(
    ops: &A,
    length: Binary64,
    angle: Binary64,
    x: Binary64,
    y: Binary64,
) -> bool {
    exists|c: Binary64, s: Binary64|
        #[trigger] is_cosine(ops, angle, c) && #[trigger] is_sine(ops, angle, s) && is_product(
            ops,
            length,
            c,
            x,
        ) && is_product(ops, length, s, y)
}

/// Whether `start` and `end` are what `ops` gives for the ends of an open
/// arc in degrees: the start angle, and the sum of start and arc angle,
/// each turned into degrees.
pub open spec fn is_arc_ends<A: Arithmetic>(ops: &A, arc: Arc, start: Binary64, end: Binary64) -> bool {
    exists|e: Binary64|
        #[trigger] is_sum(ops, arc.start_angle, arc.arc_angle, e) && is_degrees(
            ops,
            arc.start_angle,
            start,
        ) && is_degrees(ops, e, end)
}

/// Whether `out` is the DXF entity drawn for an arc, with the numbers
/// that `ops` gives.
///
/// A circle keeps centre and radius. An ellipse keeps the centre; its
/// major axis and ratio are those of [`is_ellipse_shape`]; it runs from 0
/// to 2 pi where the arc closes, and from the arc's start angle to the sum
/// of start and arc angle otherwise. A circular arc keeps centre and
/// radius and has its ends in degrees.
pub open spec fn arc_converts_to<A: Arithmetic>(
    ops: &A,
    style: Style,
    arc: Arc,
    out: DxfEntityView,
) -> bool {
    if is_circle(arc) {
        out == (DxfEntityView::Circle {
            style,
            center_x: arc.center_x,
            center_y: arc.center_y,
            radius: arc.radius,
        })
    } else if is_ellipse(arc) {
        match out {
            DxfEntityView::Ellipse {
                style: s,
                center_x,
                center_y,
                major_axis_x,
                major_axis_y,
                minor_ratio,
                start_param,
                end_param,
            } => {
                &&& s == style
                &&& center_x == arc.center_x
                &&& center_y == arc.center_y
                &&& exists|shape: EllipseShape|
                    #[trigger] is_ellipse_shape(ops, arc, shape) && is_axis(
                        ops,
                        shape.major_radius,
                        shape.tilt,
                        major_axis_x,
                        major_axis_y,
                    ) && minor_ratio == shape.minor_ratio
                &&& if arc.is_full_circle {
                    start_param == b64(ZERO_BITS) && end_param == b64(TWO_PI_BITS)
                } else {
                    start_param == arc.start_angle && is_sum(
                        ops,
                        arc.start_angle,
                        arc.arc_angle,
                        end_param,
                    )
                }
            },
            _ => false,
        }
    } else {
        match out {
            DxfEntityView::Arc { style: s, center_x, center_y, radius, start_angle, end_angle } => {
                &&& s == style
                &&& center_x == arc.center_x
                &&& center_y == arc.center_y
                &&& radius == arc.radius
                &&& is_arc_ends(ops, arc, start_angle, end_angle)
            },
            _ => false,
        }
    }
}

/// Whether `r` is what `ops` gives for an angle in radians turned into
/// degrees: the angle times 180, and that product divided by pi.
pub open spec fn is_degrees<A: Arithmetic>(ops: &A, rad: Binary64, r: Binary64) -> bool {
    exists|m: Binary64|
        #[trigger] is_product(ops, rad, b64(ONE_EIGHTY_BITS), m) && is_quotient(
            ops,
            m,
            b64(PI_BITS),
            r,
        )
}

/// An angle in degrees for one in radians: times 180, by pi.
pub(crate) fn rad_to_deg<A: Arithmetic>(rad: Binary64, ops: &A) -> (r: Binary64)
    ensures
        is_degrees(ops, rad, r),
{
    let m = ops.mul(rad, Binary64 { bits: ONE_EIGHTY_BITS });
    let r = ops.div(m, Binary64 { bits: PI_BITS });
    assert(is_product(ops, rad, b64(ONE_EIGHTY_BITS), m));
    r
}

/// The ellipse that a flattened arc lies on.
fn ellipse_shape<A: Arithmetic>(arc: &Arc, ops: &A) -> (r: EllipseShape)
    ensures
        is_ellipse_shape(ops, *arc, r),
{
    let one = Binary64 { bits: ONE_BITS };
    if one.lt(arc.flatness) {
        EllipseShape {
            major_radius: ops.mul(arc.radius, arc.flatness),
            minor_ratio: ops.div(one, arc.flatness),
            tilt: ops.add(arc.tilt_angle, Binary64 { bits: HALF_PI_BITS }),
        }
    } else {
        EllipseShape { major_radius: arc.radius, minor_ratio: arc.flatness, tilt: arc.tilt_angle }
    }
}

/// The direction of the given length at the given angle.
pub(crate) fn axis<A: Arithmetic>(length: Binary64, angle: Binary64, ops: &A) -> (r: (Binary64, Binary64))
    ensures
        is_axis(ops, length, angle, r.0, r.1),
{
    let c = ops.cos(angle);
    let s = ops.sin(angle);
    let x = ops.mul(length, c);
    let y = ops.mul(length, s);
    assert(is_cosine(ops, angle, c) && is_sine(ops, angle, s));
    (x, y)
}

/// The ends of an open arc in degrees.
fn arc_ends<A: Arithmetic>(arc: &Arc, ops: &A) -> (r: (Binary64, Binary64))
    ensures
        is_arc_ends(ops, *arc, r.0, r.1),
{
    let start = rad_to_deg(arc.start_angle, ops);
    let e = ops.add(arc.start_angle, arc.arc_angle);
    let end = rad_to_deg(e, ops);
    assert(is_sum(ops, arc.start_angle, arc.arc_angle, e));
    (start, end)
}

pub fn convert_arc<A: Arithmetic>(
    arc: &Arc,
    layer: String,
    color: i32,
    line_type: String,
    ops: &A,
) -> (r: Vec<DxfEntity>)
    ensures
        r@.len() == 1,
        arc_converts_to(ops, style_view(layer, color, line_type), *arc, r@[0]@),
{
    let one = Binary64 { bits: ONE_BITS };
    let mut out: Vec<DxfEntity> = Vec::new();
    if arc.is_full_circle && arc.flatness.ieee_eq(one) {
        out.push(
            DxfEntity::Circle(
                DxfCircle {
                    layer,
                    color,
                    line_type,
                    center_x: arc.center_x,
                    center_y: arc.center_y,
                    radius: arc.radius,
                },
            ),
        );
        return out;
    }
    if !arc.flatness.ieee_eq(one) {
        let shape = ellipse_shape(arc, ops);
        let major = axis(shape.major_radius, shape.tilt, ops);
        let start_param = if arc.is_full_circle {
            Binary64 { bits: ZERO_BITS }
        } else {
            arc.start_angle
        };
        let end_param = if arc.is_full_circle {
            Binary64 { bits: TWO_PI_BITS }
        } else {
            ops.add(arc.start_angle, arc.arc_angle)
        };
        out.push(
            DxfEntity::Ellipse(
                DxfEllipse {
                    layer,
                    color,
                    line_type,
                    center_x: arc.center_x,
                    center_y: arc.center_y,
                    major_axis_x: major.0,
                    major_axis_y: major.1,
                    minor_ratio: shape.minor_ratio,
                    start_param,
                    end_param,
                },
            ),
        );
        return out;
    }
    let ends = arc_ends(arc, ops);
    out.push(
        DxfEntity::Arc(
            DxfArc {
                layer,
                color,
                line_type,
                center_x: arc.center_x,
                center_y: arc.center_y,
                radius: arc.radius,
                start_angle: ends.0,
                end_angle: ends.1,
            },
        ),
    );
    out
}

/// Whether `out` is the DXF entity drawn for a block reference: an insert
/// of the block's name at the reference point, with the reference's
/// scales, turned by what `ops` gives for the rotation in degrees.
pub open spec fn insert_converts_to<A: Arithmetic>(
    ops: &A,
    style: Style,
    names: Map<u32, Seq<char>>,
    block: Block,
    out: DxfEntityView,
) -> bool {
    match out {
        DxfEntityView::Insert { style: s, block_name, x, y, scale_x, scale_y, rotation } => {
            &&& s == style
            &&& block_name == insert_name(names, block.def_number)
            &&& x == block.ref_x
            &&& y == block.ref_y
            &&& scale_x == block.scale_x
            &&& scale_y == block.scale_y
            &&& is_degrees(ops, block.rotation, rotation)
        },
        _ => false,
    }
}

/// How many DXF entities are drawn for a source entity: none for a
/// temporary point, two for a dimension, one for anything else.
pub open spec fn produced(e: EntityView) -> nat {
    match e {
        EntityView::Point(v) => if v.is_temporary {
            0
        } else {
            1
        },
        EntityView::Dimension(_) => 2,
        _ => 1,
    }
}

/// Whether `out` is what is drawn for the entity `e`.
///
/// A line, a point that is not temporary, a text and a solid become one
/// entity of the same kind with the same coordinates; a temporary point
/// becomes nothing; a dimension becomes its line and its text; an arc and
/// a block reference become one entity as [`arc_converts_to`] and
/// [`insert_converts_to`] say. All take the style of the entity's head.
pub open spec fn converts_to<A: Arithmetic>(
    ops: &A,
    header: JwwHeaderView,
    names: Map<u32, Seq<char>>,
    e: EntityView,
    out: Seq<DxfEntityView>,
) -> bool {
    let style = style_of(header, e.base());
    match e {
        EntityView::Line(v) => out == seq![
            DxfEntityView::Line { style, x1: v.start_x, y1: v.start_y, x2: v.end_x, y2: v.end_y },
        ],
        EntityView::Arc(v) => out.len() == 1 && arc_converts_to(ops, style, v, out[0]),
        EntityView::Point(v) => if v.is_temporary {
            out == Seq::<DxfEntityView>::empty()
        } else {
            out == seq![DxfEntityView::Point { style, x: v.x, y: v.y }]
        },
        EntityView::Text(v) => out == seq![text_of(style, v)],
        EntityView::Solid(v) => out == seq![
            DxfEntityView::Solid {
                style,
                x1: v.point1_x,
                y1: v.point1_y,
                x2: v.point2_x,
                y2: v.point2_y,
                x3: v.point3_x,
                y3: v.point3_y,
                x4: v.point4_x,
                y4: v.point4_y,
            },
        ],
        EntityView::Block(v) => out.len() == 1 && insert_converts_to(ops, style, names, v, out[0]),
        EntityView::Dimension(v) => out == seq![
            DxfEntityView::Line {
                style,
                x1: v.line.start_x,
                y1: v.line.start_y,
                x2: v.line.end_x,
                y2: v.line.end_y,
            },
            text_of(style, v.text),
        ],
    }
}

/// Draws one source entity.
pub fn convert_entity<A: Arithmetic>(
    doc: &JwwDocument,
    entity: &Entity,
    block_name_map: &HashMap<u32, String>,
    ops: &A,
) -> (r: Option<Vec<DxfEntity>>)
    ensures
        r is Some,
        converts_to(ops, doc@.header, names_view(block_name_map@), entity@, dxf_views(r->Some_0@)),
        r->Some_0@.len() == produced(entity@),
{
    let base = entity.base();
    let layer = layer_name(doc, base.layer_group, base.layer);
    let color = map_color(base.pen_color);
    let line_type = owned(map_line_type(base.pen_style));
    let ghost style = style_of(doc@.header, entity@.base());
    let mut out: Vec<DxfEntity> = Vec::new();
    match entity {
        Entity::Line(v) => {
            out.push(
                DxfEntity::Line(
                    DxfLine {
                        layer,
                        color,
                        line_type,
                        x1: v.start_x,
                        y1: v.start_y,
                        x2: v.end_x,
                        y2: v.end_y,
                    },
                ),
            );
            assert(dxf_views(out@) =~= seq![out@[0]@]);
        },
        Entity::Arc(v) => {
            out = convert_arc(v, layer, color, line_type, ops);
        },
        Entity::Point(v) => {
            if !v.is_temporary {
                out.push(DxfEntity::Point(DxfPoint { layer, color, line_type, x: v.x, y: v.y }));
                assert(dxf_views(out@) =~= seq![out@[0]@]);
            } else {
                assert(dxf_views(out@) =~= Seq::<DxfEntityView>::empty());
            }
        },
        Entity::Text(v) => {
            out.push(DxfEntity::Text(convert_text(v, layer, color, line_type)));
            assert(dxf_views(out@) =~= seq![out@[0]@]);
        },
        Entity::Solid(v) => {
            out.push(
                DxfEntity::Solid(
                    DxfSolid {
                        layer,
                        color,
                        line_type,
                        x1: v.point1_x,
                        y1: v.point1_y,
                        x2: v.point2_x,
                        y2: v.point2_y,
                        x3: v.point3_x,
                        y3: v.point3_y,
                        x4: v.point4_x,
                        y4: v.point4_y,
                    },
                ),
            );
            assert(dxf_views(out@) =~= seq![out@[0]@]);
        },
        Entity::Block(v) => {
            let block_name = match block_name_map.get(&v.def_number) {
                Some(name) => name.clone(),
                None => {
                    let mut fallback = owned("BLOCK_");
                    push_decimal(&mut fallback, v.def_number as u64);
                    fallback
                },
            };
            out.push(
                DxfEntity::Insert(
                    DxfInsert {
                        layer,
                        color,
                        line_type,
                        block_name,
                        x: v.ref_x,
                        y: v.ref_y,
                        scale_x: v.scale_x,
                        scale_y: v.scale_y,
                        rotation: rad_to_deg(v.rotation, ops),
                    },
                ),
            );
        },
        Entity::Dimension(v) => {
            out.push(
                DxfEntity::Line(
                    DxfLine {
                        layer: layer.clone(),
                        color,
                        line_type: line_type.clone(),
                        x1: v.line.start_x,
                        y1: v.line.start_y,
                        x2: v.line.end_x,
                        y2: v.line.end_y,
                    },
                ),
            );
            out.push(DxfEntity::Text(convert_text(&v.text, layer, color, line_type)));
            assert(dxf_views(out@) =~= seq![out@[0]@, out@[1]@]);
        },
    }
    Some(out)
}

/// Whether `out` is what is drawn for the row `entities`: the drawings of
/// its entities, one after the other.
pub open spec fn converted<A: Arithmetic>(
    ops: &A,
    header: JwwHeaderView,
    names: Map<u32, Seq<char>>,
    entities: Seq<EntityView>,
    out: Seq<DxfEntityView>,
) -> bool
    decreases entities.len(),
{
    if entities.len() == 0 {
        out.len() == 0
    } else {
        let k = produced(entities.last());
        &&& out.len() >= k
        &&& converted(ops, header, names, entities.drop_last(), out.subrange(0, out.len() - k))
        &&& converts_to(
            ops,
            header,
            names,
            entities.last(),
            out.subrange(out.len() - k, out.len() as int),
        )
    }
}

/// Draws a row of source entities, block references as inserts.
pub fn convert_entities<A: Arithmetic>(
    doc: &JwwDocument,
    entities: &[Entity],
    block_name_map: &HashMap<u32, String>,
    unsupported_entities: &mut Vec<String>,
    ops: &A,
) -> (r: Vec<DxfEntity>)
    ensures
        converted(
            ops,
            doc@.header,
            names_view(block_name_map@),
            entity_views(entities@),
            dxf_views(r@),
        ),
        final(unsupported_entities)@ == old(unsupported_entities)@,
{
    let ghost header = doc@.header;
    let ghost names = names_view(block_name_map@);
    let mut out: Vec<DxfEntity> = Vec::new();
    let mut i: usize = 0;
    while i < entities.len()
        invariant
            i <= entities.len(),
            header == doc@.header,
            names == names_view(block_name_map@),
            unsupported_entities@ == old(unsupported_entities)@,
            converted(ops, header, names, entity_views(entities@.take(i as int)), dxf_views(out@)),
        decreases entities.len() - i,
    {
        let ghost before = dxf_views(out@);
        match convert_entity(doc, &entities[i], block_name_map, ops) {
            Some(converted_entities) => {
                let mut part = converted_entities;
                let ghost added = dxf_views(part@);
                out.append(&mut part);
                proof {
                    let now = entity_views(entities@.take(i + 1));
                    let was = entity_views(entities@.take(i as int));
                    assert(now.drop_last() =~= was);
                    assert(now.last() == entities@[i as int]@);
                    let all = dxf_views(out@);
                    assert(all =~= before + added);
                    assert(all.subrange(0, all.len() - added.len()) =~= before);
                    assert(all.subrange(all.len() - added.len(), all.len() as int) =~= added);
                }
            },
            None => {
                unsupported_entities.push(owned(entities[i].entity_type()));
            },
        }
        i += 1;
    }
    assert(entities@.take(entities@.len() as int) =~= entities@);
    out
}

/// Whether `blocks` are the block definitions `defs` as DXF blocks: each
/// under its name, based at the origin, holding the drawings of its
/// entities.
pub open spec fn blocks_converted<A: Arithmetic>(
    ops: &A,
    header: JwwHeaderView,
    names: Map<u32, Seq<char>>,
    defs: Seq<BlockDefView>,
    blocks: Seq<DxfBlockView>,
) -> bool {
    &&& blocks.len() == defs.len()
    &&& forall|i: int|
        0 <= i < defs.len() ==> {
            &&& (#[trigger] blocks[i]).name == block_name_of(defs[i].number, defs[i].name)
            &&& blocks[i].base_x == b64(ZERO_BITS)
            &&& blocks[i].base_y == b64(ZERO_BITS)
            &&& converted(ops, header, names, defs[i].entities, blocks[i].entities)
        }
}

/// Draws every block definition as a DXF block.
pub fn convert_blocks<A: Arithmetic>(
    doc: &JwwDocument,
    block_name_map: &HashMap<u32, String>,
    unsupported_entities: &mut Vec<String>,
    ops: &A,
) -> (r: Vec<DxfBlock>)
    ensures
        blocks_converted(
            ops,
            doc@.header,
            names_view(block_name_map@),
            doc@.block_defs,
            block_views(r@),
        ),
        final(unsupported_entities)@ == old(unsupported_entities)@,
{
    let mut blocks: Vec<DxfBlock> = Vec::new();
    let mut i: usize = 0;
    while i < doc.block_defs.len()
        invariant
            i <= doc.block_defs.len(),
            unsupported_entities@ == old(unsupported_entities)@,
            blocks_converted(
                ops,
                doc@.header,
                names_view(block_name_map@),
                block_def_views(doc.block_defs@.take(i as int)),
                block_views(blocks@),
            ),
        decreases doc.block_defs.len() - i,
    {
        let block_def = &doc.block_defs[i];
        let name = block_def_name(block_def.number, block_def.name.as_str());
        let entities = convert_entities(
            doc,
            block_def.entities.as_slice(),
            block_name_map,
            unsupported_entities,
            ops,
        );
        let ghost before = block_views(blocks@);
        let block = DxfBlock {
            name,
            base_x: Binary64 { bits: ZERO_BITS },
            base_y: Binary64 { bits: ZERO_BITS },
            entities,
        };
        let ghost shown = block@;
        blocks.push(block);
        proof {
            let now = block_def_views(doc.block_defs@.take(i + 1));
            let was = block_def_views(doc.block_defs@.take(i as int));
            let all = block_views(blocks@);
            assert(all =~= before.push(shown));
            assert forall|k: int| 0 <= k < now.len() implies {
                &&& (#[trigger] all[k]).name == block_name_of(now[k].number, now[k].name)
                &&& all[k].base_x == b64(ZERO_BITS)
                &&& all[k].base_y == b64(ZERO_BITS)
                &&& converted(
                    ops,
                    doc@.header,
                    names_view(block_name_map@),
                    now[k].entities,
                    all[k].entities,
                )
            } by {
                if k < i {
                    assert(all[k] == before[k]);
                    assert(now[k] == was[k]);
                } else {
                    assert(now[k] == doc.block_defs@[i as int]@);
                }
            }
        }
        i += 1;
    }
    assert(doc.block_defs@.take(doc.block_defs@.len() as int) =~= doc.block_defs@);
    assert(block_def_views(doc.block_defs@) =~= doc@.block_defs);
    blocks
}

/// How many entities of a row are of the given kind.
pub open spec fn count_kind(out: Seq<DxfEntityView>, kind: DxfKind) -> nat
    decreases out.len(),
{
    if out.len() == 0 {
        0
    } else {
        count_kind(out.drop_last(), kind) + if out.last().kind() == kind {
            1nat
        } else {
            0nat
        }
    }
}

/// How many DXF entities of the given kind are drawn for a source entity,
/// for the kinds that no arc is drawn as: a line for a line, a point for a
/// point that is not temporary, a text for a text, a solid for a solid, an
/// insert for a block reference, a line and a text for a dimension.
pub open spec fn drawn_as(e: EntityView, kind: DxfKind) -> nat {
    match e {
        EntityView::Line(_) => if kind == DxfKind::Line {
            1
        } else {
            0
        },
        EntityView::Arc(_) => 0,
        EntityView::Point(v) => if kind == DxfKind::Point && !v.is_temporary {
            1
        } else {
            0
        },
        EntityView::Text(_) => if kind == DxfKind::Text {
            1
        } else {
            0
        },
        EntityView::Solid(_) => if kind == DxfKind::Solid {
            1
        } else {
            0
        },
        EntityView::Block(_) => if kind == DxfKind::Insert {
            1
        } else {
            0
        },
        EntityView::Dimension(_) => if kind == DxfKind::Line || kind == DxfKind::Text {
            1
        } else {
            0
        },
    }
}

/// [`drawn_as`], summed over a row.
pub open spec fn total_drawn_as(entities: Seq<EntityView>, kind: DxfKind) -> nat
    decreases entities.len(),
{
    if entities.len() == 0 {
        0
    } else {
        total_drawn_as(entities.drop_last(), kind) + drawn_as(entities.last(), kind)
    }
}

/// Counting by kind goes through a row piece by piece.
pub proof fn lemma_count_kind_join(a: Seq<DxfEntityView>, b: Seq<DxfEntityView>, kind: DxfKind)
    ensures
        count_kind(a + b, kind) == count_kind(a, kind) + count_kind(b, kind),
    decreases b.len(),
{
    if b.len() == 0 {
        assert(a + b =~= a);
    } else {
        assert((a + b).drop_last() =~= a + b.drop_last());
        assert((a + b).last() == b.last());
        lemma_count_kind_join(a, b.drop_last(), kind);
    }
}

/// Converting without exploding keeps the counts: there are as many DXF
/// lines as source lines and dimensions, as many texts as source texts and
/// dimensions, as many points as points that are not temporary, as many
/// solids as solids, and as many inserts as block references.
pub proof fn conversion_keeps_counts<A: Arithmetic>(
    ops: &A,
    header: JwwHeaderView,
    names: Map<u32, Seq<char>>,
    entities: Seq<EntityView>,
    out: Seq<DxfEntityView>,
    kind: DxfKind,
)
    requires
        converted(ops, header, names, entities, out),
        kind == DxfKind::Line || kind == DxfKind::Point || kind == DxfKind::Text || kind
            == DxfKind::Solid || kind == DxfKind::Insert,
    ensures
        count_kind(out, kind) == total_drawn_as(entities, kind),
    decreases entities.len(),
{
    if entities.len() > 0 {
        let k = produced(entities.last());
        let front = out.subrange(0, out.len() - k);
        let tail = out.subrange(out.len() - k, out.len() as int);
        conversion_keeps_counts(ops, header, names, entities.drop_last(), front, kind);
        assert(out =~= front + tail);
        lemma_count_kind_join(front, tail, kind);
        let none = Seq::<DxfEntityView>::empty();
        assert(count_kind(none, kind) == 0);
        assert(tail.len() == k);
        if k == 0 {
            assert(tail =~= none);
        } else if k == 1 {
            assert(tail.drop_last() =~= none);
            assert(tail.last() == tail[0]);
            assert(count_kind(tail, kind) == if tail[0].kind() == kind {
                1nat
            } else {
                0nat
            });
        } else {
            let one = tail.drop_last();
            assert(one.drop_last() =~= none);
            assert(one.last() == tail[0]);
            assert(tail.last() == tail[1]);
            assert(count_kind(one, kind) == if tail[0].kind() == kind {
                1nat
            } else {
                0nat
            });
        }
        assert(count_kind(tail, kind) == drawn_as(entities.last(), kind));
    }
}

/// A dimension is drawn as exactly two entities, a line and a text.
pub proof fn dimension_becomes_line_and_text<A: Arithmetic>(
    ops: &A,
    header: JwwHeaderView,
    names: Map<u32, Seq<char>>,
    e: EntityView,
    out: Seq<DxfEntityView>,
)
    requires
        converts_to(ops, header, names, e, out),
        e is Dimension,
    ensures
        out.len() == 2,
        out[0].kind() == DxfKind::Line,
        out[1].kind() == DxfKind::Text,
{
}

/// An arc that closes and has flatness 1 is drawn, where no transform is
/// applied, as a circle with the same centre and radius.
pub proof fn full_circle_becomes_circle<A: Arithmetic>(
    ops: &A,
    header: JwwHeaderView,
    names: Map<u32, Seq<char>>,
    arc: Arc,
    out: Seq<DxfEntityView>,
)
    requires
        converts_to(ops, header, names, EntityView::Arc(arc), out),
        arc.is_full_circle,
        arc.flatness.ieee_eq_spec(b64(ONE_BITS)),
    ensures
        out == seq![
            DxfEntityView::Circle {
                style: style_of(header, arc.base),
                center_x: arc.center_x,
                center_y: arc.center_y,
                radius: arc.radius,
            },
        ],
{
    assert(out =~= seq![out[0]]);
}

/// Nothing is drawn for a temporary point.
pub proof fn temporary_point_draws_nothing<A: Arithmetic>(
    ops: &A,
    header: JwwHeaderView,
    names: Map<u32, Seq<char>>,
    e: EntityView,
    out: Seq<DxfEntityView>,
)
    requires
        converts_to(ops, header, names, e, out),
        e is Point,
        e->Point_0.is_temporary,
    ensures
        out.len() == 0,
{
}

/// A layer without a name in the header is called by the numbers of its
/// group and of its place in the group, in upper-case hexadecimal with a
/// hyphen between.
pub proof fn unnamed_layer_gets_default_name(header: JwwHeaderView, g: int, l: int)
    requires
        0 <= g < 16,
        0 <= l < 16,
        header.layer_groups[g].layers[l].name.len() == 0,
    ensures
        layers_of(header)[g * 16 + l].name == default_layer_name(g as nat, l as nat),
        layer_name_of(header, g as u16, l as u16) == default_layer_name(g as nat, l as nat),
{
    let i = g * 16 + l;
    assert(i / 16 == g && i % 16 == l);
    assert(trim_text(Seq::<char>::empty()) =~= Seq::<char>::empty());
    assert(header.layer_groups[g].layers[l].name =~= Seq::<char>::empty());
}

} // verus!
